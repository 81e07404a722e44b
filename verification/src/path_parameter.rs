//! Metadata for one URL template of a generated API command: the path, the
//! command's parameter list, which parameters the path makes mandatory or
//! optional, and the HTTP method. The two parameter groups are sets: only
//! membership matters.

use vstd::prelude::*;
use crate::text::{contains, contains_str, joined, strs_view};

verus! {

/// What one endpoint parameter contributes to the match pattern: wrapped in
/// `Some` when the path treats it as optional, bare when mandatory, and
/// `None` when the path does not use it at all. A parameter in both groups
/// counts as optional.
pub open spec fn pattern_item(
    p: Seq<char>,
    mandatory: Seq<Seq<char>>,
    optional: Seq<Seq<char>>,
) -> Seq<char> {
    if contains_str(optional, p) {
        "Some("@ + p + ")"@
    } else if contains_str(mandatory, p) {
        p
    } else {
        "None"@
    }
}

/// The whole match pattern: a single item stands alone, any other number is
/// parenthesized as a tuple.
pub open spec fn pattern_of(
    endpoints: Seq<Seq<char>>,
    mandatory: Seq<Seq<char>>,
    optional: Seq<Seq<char>>,
) -> Seq<char> {
    let items = endpoints.map_values(|p: Seq<char>| pattern_item(p, mandatory, optional));
    if items.len() == 1 {
        items[0]
    } else {
        "("@ + joined(items) + ")"@
    }
}

/// One URL template of a generated API command.
pub struct PathParameter {
    path: String,
    endpoints_params: Vec<String>,
    mandatory_parameters: Vec<String>,
    optional_parameters: Vec<String>,
    method: String,
}

/// The mathematical value of a [`PathParameter`].
pub ghost struct PathParameterView {
    pub path: Seq<char>,
    pub endpoints_params: Seq<Seq<char>>,
    pub mandatory_parameters: Seq<Seq<char>>,
    pub optional_parameters: Seq<Seq<char>>,
    pub method: Seq<char>,
}

impl View for PathParameter {
    type V = PathParameterView;

    closed spec fn view(&self) -> PathParameterView {
        PathParameterView {
            path: self.path@,
            endpoints_params: strs_view(self.endpoints_params@),
            mandatory_parameters: strs_view(self.mandatory_parameters@),
            optional_parameters: strs_view(self.optional_parameters@),
            method: self.method@,
        }
    }
}

impl PathParameter {
    /// Creates the metadata for one URL template. The mandatory and
    /// optional parameter lists are read as sets.
    pub fn new(
        path: String,
        endpoints_params: Vec<String>,
        mandatory_parameters: Vec<String>,
        optional_parameters: Vec<String>,
        method: String,
    ) -> (r: PathParameter)
        ensures
            r@.path == path@,
            r@.endpoints_params == strs_view(endpoints_params@),
            r@.mandatory_parameters == strs_view(mandatory_parameters@),
            r@.optional_parameters == strs_view(optional_parameters@),
            r@.method == method@,
    {
        PathParameter { path, endpoints_params, mandatory_parameters, optional_parameters, method }
    }

    /// All parameters the path uses, optional ones first.
    pub fn params(&self) -> (r: Vec<String>)
        ensures
            strs_view(r@) == self@.optional_parameters + self@.mandatory_parameters,
    {
        let mut out: Vec<String> = Vec::new();
        let mut i: usize = 0;
        while i < self.optional_parameters.len()
            invariant
                0 <= i <= self.optional_parameters@.len(),
                strs_view(out@) == strs_view(self.optional_parameters@).take(i as int),
            decreases self.optional_parameters@.len() - i,
        {
            let item = self.optional_parameters[i].clone();
            proof {
                assert(strs_view(out@.push(item)) =~= strs_view(out@).push(item@));
                assert(strs_view(self.optional_parameters@).take(i + 1) =~= strs_view(
                    self.optional_parameters@,
                ).take(i as int).push(self.optional_parameters@[i as int]@));
            }
            out.push(item);
            i = i + 1;
        }
        proof {
            assert(strs_view(self.optional_parameters@).take(
                self.optional_parameters@.len() as int,
            ) =~= strs_view(self.optional_parameters@));
        }
        let mut j: usize = 0;
        while j < self.mandatory_parameters.len()
            invariant
                0 <= j <= self.mandatory_parameters@.len(),
                strs_view(out@) == strs_view(self.optional_parameters@) + strs_view(
                    self.mandatory_parameters@,
                ).take(j as int),
            decreases self.mandatory_parameters@.len() - j,
        {
            let item = self.mandatory_parameters[j].clone();
            proof {
                assert(strs_view(out@.push(item)) =~= strs_view(out@).push(item@));
                assert(strs_view(self.mandatory_parameters@).take(j + 1) =~= strs_view(
                    self.mandatory_parameters@,
                ).take(j as int).push(self.mandatory_parameters@[j as int]@));
                assert(strs_view(out@) + strs_view(self.mandatory_parameters@).take(j + 1)
                    =~= (strs_view(out@) + strs_view(self.mandatory_parameters@).take(
                    j as int,
                )).push(self.mandatory_parameters@[j as int]@));
            }
            out.push(item);
            j = j + 1;
        }
        proof {
            assert(strs_view(self.mandatory_parameters@).take(
                self.mandatory_parameters@.len() as int,
            ) =~= strs_view(self.mandatory_parameters@));
        }
        out
    }

    /// The match pattern over the command's parameters: optional ones wrapped
    /// in `Some`, mandatory ones bare, unused ones `None`; a single item
    /// stands alone and any other number forms a parenthesized tuple.
    pub fn pattern_params(&self) -> (r: String)
        ensures
            r@ == pattern_of(
                self@.endpoints_params,
                self@.mandatory_parameters,
                self@.optional_parameters,
            ),
    {
        proof {
            reveal_strlit("Some(");
            reveal_strlit(")");
            reveal_strlit("None");
            reveal_strlit("(");
            reveal_strlit(",");
        }
        let ghost items_spec = self@.endpoints_params.map_values(
            |p: Seq<char>| pattern_item(p, self@.mandatory_parameters, self@.optional_parameters),
        );
        let mut items: Vec<String> = Vec::new();
        let mut i: usize = 0;
        while i < self.endpoints_params.len()
            invariant
                0 <= i <= self.endpoints_params@.len(),
                items_spec == self@.endpoints_params.map_values(
                    |p: Seq<char>| pattern_item(
                        p,
                        self@.mandatory_parameters,
                        self@.optional_parameters,
                    ),
                ),
                strs_view(items@) == items_spec.take(i as int),
            decreases self.endpoints_params@.len() - i,
        {
            proof {
                reveal_strlit("Some(");
                reveal_strlit(")");
                reveal_strlit("None");
            }
            let p = &self.endpoints_params[i];
            let item: String = if contains(&self.optional_parameters, p.as_str()) {
                let mut it = "Some(".to_owned();
                it.append(p.as_str());
                it.append(")");
                it
            } else if contains(&self.mandatory_parameters, p.as_str()) {
                p.clone()
            } else {
                "None".to_owned()
            };
            proof {
                assert(item@ == items_spec[i as int]);
                assert(strs_view(items@.push(item)) =~= strs_view(items@).push(item@));
                assert(items_spec.take(i + 1) =~= items_spec.take(i as int).push(
                    items_spec[i as int],
                ));
            }
            items.push(item);
            i = i + 1;
        }
        proof {
            assert(items_spec.take(items_spec.len() as int) =~= items_spec);
        }
        if items.len() == 1 {
            let r = items[0].clone();
            proof {
                assert(r@ == items_spec[0]);
            }
            r
        } else {
            let mut out = "(".to_owned();
            let mut j: usize = 0;
            while j < items.len()
                invariant
                    0 <= j <= items@.len(),
                    items@.len() != 1,
                    strs_view(items@) == items_spec,
                    out@ == "("@ + joined(items_spec.take(j as int)),
                decreases items@.len() - j,
            {
                proof {
                    reveal_strlit(",");
                }
                if j > 0 {
                    out.append(",");
                }
                out.append(items[j].as_str());
                proof {
                    assert(items_spec.take(j + 1).drop_last() =~= items_spec.take(j as int));
                    assert(items_spec.take(j + 1).last() == items_spec[j as int]);
                    if j == 0 {
                        assert(items_spec.take(1) =~= seq![items_spec[0]]);
                        assert(joined(items_spec.take(1)) == items_spec[0]);
                    }
                    assert(out@ =~= "("@ + joined(items_spec.take(j + 1)));
                }
                j = j + 1;
            }
            out.append(")");
            proof {
                assert(items_spec.take(items_spec.len() as int) =~= items_spec);
                assert(out@ =~= pattern_of(
                    self@.endpoints_params,
                    self@.mandatory_parameters,
                    self@.optional_parameters,
                ));
            }
            out
        }
    }

    /// The HTTP method of this URL template.
    pub fn method(&self) -> (r: String)
        ensures
            r@ == self@.method,
    {
        self.method.clone()
    }

    /// The URL path of this template.
    pub fn path(&self) -> (r: String)
        ensures
            r@ == self@.path,
    {
        self.path.clone()
    }
}

} // verus!
