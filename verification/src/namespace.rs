//! The header of one generated namespace file: which import blocks it
//! carries. Computing the header text is pure and lives here; writing it
//! out is I/O and lives with the caller.

use vstd::prelude::*;

verus! {

/// Flags selecting the optional sections of a namespace file header.
pub struct NamespaceFileHeader {
    /// Include the enum imports.
    pub with_enums: bool,
    /// Include the input-handling imports.
    pub with_input: bool,
}

/// The full header text for the given flags: the common imports, then the
/// input-handling imports when asked for, then the enum import when asked
/// for, then the shared namespace imports, and a blank separator line.
pub open spec fn header_text(with_enums: bool, with_input: bool) -> Seq<char> {
    "use clap::{Command, CommandFactory, Parser};\nuse elasticsearch::http::Method;\nuse elasticsearch::http::headers::HeaderMap;\n"@
        + (if with_input {
        "\nuse async_std::fs::File;\nuse async_std::io;\nuse async_std::io::{BufReader, ReadExt};\nuse atty::Stream;\n\n"@
    } else {
        Seq::<char>::empty()
    }) + (if with_enums {
        "use crate::enums::*;"@
    } else {
        Seq::<char>::empty()
    })
        + "\nuse crate::error;\nuse crate::namespaces::TransportArgs;\nuse crate::namespaces::parse_header;\nuse crate::namespaces::Executor;"@
        + "\n\n"@
}

impl NamespaceFileHeader {
    /// Renders the header this configuration calls for; the caller writes
    /// it to the namespace file unchanged.
    pub fn contents(&self) -> (r: String)
        ensures
            r@ == header_text(self.with_enums, self.with_input),
    {
        proof {
            reveal_strlit(
                "use clap::{Command, CommandFactory, Parser};\nuse elasticsearch::http::Method;\nuse elasticsearch::http::headers::HeaderMap;\n",
            );
            reveal_strlit(
                "\nuse async_std::fs::File;\nuse async_std::io;\nuse async_std::io::{BufReader, ReadExt};\nuse atty::Stream;\n\n",
            );
            reveal_strlit("use crate::enums::*;");
            reveal_strlit(
                "\nuse crate::error;\nuse crate::namespaces::TransportArgs;\nuse crate::namespaces::parse_header;\nuse crate::namespaces::Executor;",
            );
            reveal_strlit("\n\n");
        }
        let mut out =
            "use clap::{Command, CommandFactory, Parser};\nuse elasticsearch::http::Method;\nuse elasticsearch::http::headers::HeaderMap;\n".to_owned();
        if self.with_input {
            out.append(
                "\nuse async_std::fs::File;\nuse async_std::io;\nuse async_std::io::{BufReader, ReadExt};\nuse atty::Stream;\n\n",
            );
        }
        if self.with_enums {
            out.append("use crate::enums::*;");
        }
        out.append(
            "\nuse crate::error;\nuse crate::namespaces::TransportArgs;\nuse crate::namespaces::parse_header;\nuse crate::namespaces::Executor;",
        );
        out.append("\n\n");
        proof {
            assert(out@ =~= header_text(self.with_enums, self.with_input));
        }
        out
    }
}

} // verus!
