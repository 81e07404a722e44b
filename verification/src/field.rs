//! Metadata for one field of a generated API command: its name (sanitized
//! against reserved words), description, type, whether it is required, and
//! an optional server-side default.

use vstd::prelude::*;
use crate::text::{newline_free, str_eq};

verus! {

/// The prefix of `s` before its first newline.
pub open spec fn before_newline(s: Seq<char>) -> Seq<char>
    decreases s.len(),
{
    if s.len() == 0 {
        Seq::<char>::empty()
    } else if s[0] == '\n' {
        Seq::<char>::empty()
    } else {
        seq![s[0]] + before_newline(s.drop_first())
    }
}

/// The first line of `s`: what stands before the first newline, with one
/// carriage return stripped when it sat directly before that newline.
pub open spec fn first_line(s: Seq<char>) -> Seq<char> {
    let p = before_newline(s);
    if !newline_free(s) && p.len() > 0 && p.last() == '\r' {
        p.drop_last()
    } else {
        p
    }
}

proof fn lemma_before_newline_is_take(s: Seq<char>, cut: int)
    requires
        0 <= cut <= s.len(),
        forall|j: int| 0 <= j < cut ==> s[j] != '\n',
        cut < s.len() ==> s[cut] == '\n',
    ensures
        before_newline(s) == s.take(cut),
    decreases s.len(),
{
    if s.len() == 0 {
        assert(before_newline(s) =~= s.take(cut));
    } else if s[0] == '\n' {
        assert(cut == 0);
        assert(before_newline(s) =~= s.take(cut));
    } else {
        assert(cut > 0) by {
            if cut == 0 {
                assert(s[0] == '\n');
            }
        }
        let rest = s.drop_first();
        lemma_before_newline_is_take(rest, cut - 1);
        assert(seq![s[0]] + rest.take(cut - 1) =~= s.take(cut));
    }
}

/// The field name with reserved words replaced, as the command generator
/// uses it.
pub open spec fn sanitized_name(name: Seq<char>) -> Seq<char> {
    if name == "type"@ {
        "ty"@
    } else if name == "help"@ {
        "help_"@
    } else if name == "h"@ {
        "h_"@
    } else {
        name
    }
}

/// The inverse replacement: the wire name a sanitized field name stands for.
pub open spec fn original_name(name: Seq<char>) -> Seq<char> {
    if name == "ty"@ {
        "r#type"@
    } else if name == "help_"@ {
        "help"@
    } else if name == "h_"@ {
        "h"@
    } else {
        name
    }
}

/// The declared type of a field: bare when the field is required, wrapped
/// in `Option` otherwise.
pub open spec fn typ_of(required: bool, ty: Seq<char>) -> Seq<char> {
    if required {
        ty
    } else {
        "Option<"@ + ty + ">"@
    }
}

/// The view of an [`Option<String>`].
pub open spec fn opt_str_view(o: Option<String>) -> Option<Seq<char>> {
    match o {
        Option::Some(s) => Option::Some(s@),
        Option::None => Option::None,
    }
}

/// One field of a generated API command.
#[derive(Debug, Clone)]
pub struct Field {
    name: String,
    description: String,
    required: bool,
    ty: String,
    default_value: Option<String>,
}

/// The mathematical value of a [`Field`].
pub ghost struct FieldView {
    pub name: Seq<char>,
    pub description: Seq<char>,
    pub required: bool,
    pub ty: Seq<char>,
    pub default_value: Option<Seq<char>>,
}

impl View for Field {
    type V = FieldView;

    closed spec fn view(&self) -> FieldView {
        FieldView {
            name: self.name@,
            description: self.description@,
            required: self.required,
            ty: self.ty@,
            default_value: opt_str_view(self.default_value),
        }
    }
}

impl Field {
    /// Creates a field, sanitizing its name against reserved words.
    pub fn new(
        name: String,
        description: String,
        required: bool,
        ty: String,
        default_value: Option<String>,
    ) -> (r: Field)
        ensures
            r@.name == sanitized_name(name@),
            r@.description == description@,
            r@.required == required,
            r@.ty == ty@,
            r@.default_value == opt_str_view(default_value),
    {
        let name = Self::sanitize_field_name(name.as_str());
        Field { name, description, required, ty, default_value }
    }

    /// The declared type: bare when required, `Option`-wrapped otherwise.
    pub fn typ(&self) -> (r: String)
        ensures
            r@ == typ_of(self@.required, self@.ty),
    {
        if self.required {
            self.ty.clone()
        } else {
            proof {
                reveal_strlit("Option<");
                reveal_strlit(">");
            }
            let mut out = "Option<".to_owned();
            out.append(self.ty.as_str());
            out.append(">");
            out
        }
    }

    /// The (sanitized) field name.
    pub fn name(&self) -> (r: String)
        ensures
            r@ == self@.name,
    {
        self.name.clone()
    }

    fn sanitize_field_name(name: &str) -> (r: String)
        ensures
            r@ == sanitized_name(name@),
    {
        if str_eq(name, "type") {
            "ty".to_owned()
        } else if str_eq(name, "help") {
            "help_".to_owned()
        } else if str_eq(name, "h") {
            "h_".to_owned()
        } else {
            name.to_owned()
        }
    }

    /// The wire name this field's sanitized name stands for.
    pub(crate) fn original_field_name(&self) -> (r: String)
        ensures
            r@ == original_name(self@.name),
    {
        if str_eq(self.name.as_str(), "ty") {
            "r#type".to_owned()
        } else if str_eq(self.name.as_str(), "help_") {
            "help".to_owned()
        } else if str_eq(self.name.as_str(), "h_") {
            "h".to_owned()
        } else {
            self.name.clone()
        }
    }

    /// Whether the field is required.
    pub fn required(&self) -> (r: bool)
        ensures
            r == self@.required,
    {
        self.required
    }

    /// The short help text: the first line of the description.
    pub fn short_help(&self) -> (r: String)
        ensures
            r@ == first_line(self@.description),
    {
        let s = self.description.as_str();
        let n: usize = s.unicode_len();
        let mut cut: usize = n;
        let mut i: usize = 0;
        while i < n
            invariant
                n == s@.len(),
                0 <= i <= n,
                cut <= n,
                cut < n ==> cut < i && s@[cut as int] == '\n' && (forall|j: int|
                    0 <= j < cut ==> s@[j] != '\n'),
                cut == n ==> forall|j: int| 0 <= j < i ==> s@[j] != '\n',
            decreases n - i,
        {
            if cut == n && s.get_char(i) == '\n' {
                cut = i;
            }
            i = i + 1;
        }
        proof {
            lemma_before_newline_is_take(s@, cut as int);
            if cut < n {
                assert(!newline_free(s@));
            } else {
                assert(newline_free(s@));
            }
        }
        let line_end: usize = if cut < n && cut > 0 && s.get_char(cut - 1) == '\r' {
            cut - 1
        } else {
            cut
        };
        let r = s.substring_char(0, line_end).to_owned();
        proof {
            let p = before_newline(s@);
            if cut < n && cut > 0 && s@[cut - 1] == '\r' {
                assert(p.last() == s@[cut - 1]);
                assert(p.drop_last() =~= s@.take(line_end as int));
            }
            assert(r@ =~= first_line(self@.description));
        }
        r
    }

    /// The long help text: the whole description.
    pub fn long_help(&self) -> (r: String)
        ensures
            r@ == self@.description,
    {
        self.description.clone()
    }
}

} // verus!
