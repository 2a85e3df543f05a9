//! The set of information fields rsfetch can display, and their identifiers.
//!
//! [`Field`] is the single source of truth for which fields exist and the order
//! they appear in by default. It parses from case-insensitive identifiers.
use vstd::prelude::*;
use vstd::string::*;

use crate::text::{ascii_lower, case_variant_of, chars_of, has_no_upper, law_ascii_lower_folds_case, lower_equals};

verus! {

/// A single line of information in the output.
#[derive(Debug, Clone, Copy, PartialEq, Eq, Structural)]
pub enum Field {
    Host,
    Os,
    Kernel,
    Shell,
    Uptime,
    Cpu,
    Memory,
    Swap,
    Disks,
}

/// The canonical lowercase identifier of a field.
pub open spec fn field_id(f: Field) -> Seq<char> {
    match f {
        Field::Host => seq!['h', 'o', 's', 't'],
        Field::Os => seq!['o', 's'],
        Field::Kernel => seq!['k', 'e', 'r', 'n', 'e', 'l'],
        Field::Shell => seq!['s', 'h', 'e', 'l', 'l'],
        Field::Uptime => seq!['u', 'p', 't', 'i', 'm', 'e'],
        Field::Cpu => seq!['c', 'p', 'u'],
        Field::Memory => seq!['m', 'e', 'm', 'o', 'r', 'y'],
        Field::Swap => seq!['s', 'w', 'a', 'p'],
        Field::Disks => seq!['d', 'i', 's', 'k', 's'],
    }
}

/// The field whose identifier is exactly `name`, if any.
pub open spec fn field_named(name: Seq<char>) -> Option<Field> {
    if name == field_id(Field::Host) {
        Some(Field::Host)
    } else if name == field_id(Field::Os) {
        Some(Field::Os)
    } else if name == field_id(Field::Kernel) {
        Some(Field::Kernel)
    } else if name == field_id(Field::Shell) {
        Some(Field::Shell)
    } else if name == field_id(Field::Uptime) {
        Some(Field::Uptime)
    } else if name == field_id(Field::Cpu) {
        Some(Field::Cpu)
    } else if name == field_id(Field::Memory) {
        Some(Field::Memory)
    } else if name == field_id(Field::Swap) {
        Some(Field::Swap)
    } else if name == field_id(Field::Disks) {
        Some(Field::Disks)
    } else {
        None
    }
}

/// The fields shown by default, in order.
pub open spec fn default_fields() -> Seq<Field> {
    seq![
        Field::Host,
        Field::Os,
        Field::Kernel,
        Field::Shell,
        Field::Uptime,
        Field::Cpu,
        Field::Memory,
        Field::Swap,
        Field::Disks,
    ]
}

impl Field {
    /// The canonical lowercase identifier for this field.
    pub fn id(self) -> (id: &'static str)
        ensures
            id@ == field_id(self),
    {
        proof {
            reveal_strlit("host");
            reveal_strlit("os");
            reveal_strlit("kernel");
            reveal_strlit("shell");
            reveal_strlit("uptime");
            reveal_strlit("cpu");
            reveal_strlit("memory");
            reveal_strlit("swap");
            reveal_strlit("disks");
        }
        match self {
            Field::Host => "host",
            Field::Os => "os",
            Field::Kernel => "kernel",
            Field::Shell => "shell",
            Field::Uptime => "uptime",
            Field::Cpu => "cpu",
            Field::Memory => "memory",
            Field::Swap => "swap",
            Field::Disks => "disks",
        }
    }

    /// The default fields to display, in order.
    pub fn default_order() -> (fields: Vec<Field>)
        ensures
            fields@ == default_fields(),
    {
        let fields = vec![
            Field::Host,
            Field::Os,
            Field::Kernel,
            Field::Shell,
            Field::Uptime,
            Field::Cpu,
            Field::Memory,
            Field::Swap,
            Field::Disks,
        ];
        assert(fields@ =~= default_fields());
        fields
    }

    /// Parse a field from its identifier, ignoring ASCII case.
    pub fn parse(s: &str) -> (r: Result<Field, ParseFieldError>)
        ensures
            field_named(ascii_lower(s@)) matches Some(f) ==> r == Ok::<Field, ParseFieldError>(f),
            field_named(ascii_lower(s@)) is None ==> (r matches Err(e) && e.0@ == s@),
    {
        let cs = chars_of(s);
        let all = Field::default_order();
        let mut i: usize = 0;
        while i < all.len()
            invariant
                cs@ == s@,
                all@ == default_fields(),
                i <= all@.len(),
                forall|j: int| 0 <= j < i ==> ascii_lower(s@) != field_id(#[trigger] all@[j]),
            decreases all@.len() - i,
        {
            let f = all[i];
            if lower_equals(cs.as_slice(), f.id()) {
                return Ok(f);
            }
            i = i + 1;
        }
        assert(forall|f: Field| default_fields().contains(f)) by {
            assert forall|f: Field| default_fields().contains(f) by {
                match f {
                    Field::Host => assert(default_fields()[0] == f),
                    Field::Os => assert(default_fields()[1] == f),
                    Field::Kernel => assert(default_fields()[2] == f),
                    Field::Shell => assert(default_fields()[3] == f),
                    Field::Uptime => assert(default_fields()[4] == f),
                    Field::Cpu => assert(default_fields()[5] == f),
                    Field::Memory => assert(default_fields()[6] == f),
                    Field::Swap => assert(default_fields()[7] == f),
                    Field::Disks => assert(default_fields()[8] == f),
                }
            }
        }
        Err(ParseFieldError(String::from_str(s)))
    }
}

/// Every field's identifier is already lowercase and parses back to the field.
pub proof fn law_id_round_trip(f: Field)
    ensures
        ascii_lower(field_id(f)) == field_id(f),
        field_named(ascii_lower(field_id(f))) == Some(f),
{
    assert(ascii_lower(field_id(f)) =~= field_id(f));
}

/// A field is recognized whatever the case of its identifier's letters:
/// `Memory` and `MEMORY` name the field that `memory` names.
pub proof fn law_field_name_ignores_case(f: Field, s: Seq<char>)
    requires
        case_variant_of(s, field_id(f)),
    ensures
        field_named(ascii_lower(s)) == Some(f),
{
    assert(has_no_upper(field_id(f)));
    law_ascii_lower_folds_case(s, field_id(f));
    law_id_round_trip(f);
}

/// The documented field names are `host`, `os`, `kernel`, `shell`, `uptime`,
/// `cpu`, `memory`, `swap` and `disks`, each naming its own field.
pub proof fn law_documented_field_names()
    ensures
        field_named("host"@) == Some(Field::Host),
        field_named("os"@) == Some(Field::Os),
        field_named("kernel"@) == Some(Field::Kernel),
        field_named("shell"@) == Some(Field::Shell),
        field_named("uptime"@) == Some(Field::Uptime),
        field_named("cpu"@) == Some(Field::Cpu),
        field_named("memory"@) == Some(Field::Memory),
        field_named("swap"@) == Some(Field::Swap),
        field_named("disks"@) == Some(Field::Disks),
{
    reveal_strlit("host");
    assert("host"@ =~= field_id(Field::Host));
    reveal_strlit("os");
    assert("os"@ =~= field_id(Field::Os));
    reveal_strlit("kernel");
    assert("kernel"@ =~= field_id(Field::Kernel));
    reveal_strlit("shell");
    assert("shell"@ =~= field_id(Field::Shell));
    reveal_strlit("uptime");
    assert("uptime"@ =~= field_id(Field::Uptime));
    reveal_strlit("cpu");
    assert("cpu"@ =~= field_id(Field::Cpu));
    reveal_strlit("memory");
    assert("memory"@ =~= field_id(Field::Memory));
    reveal_strlit("swap");
    assert("swap"@ =~= field_id(Field::Swap));
    reveal_strlit("disks");
    assert("disks"@ =~= field_id(Field::Disks));
}

/// Error returned when a string does not name a known [`Field`].
#[derive(Debug, PartialEq, Eq)]
pub struct ParseFieldError(pub String);

impl ParseFieldError {
    /// The human-readable message: `unknown field '<name>'`.
    pub fn message(&self) -> (m: String)
        ensures
            m@ == seq!['u', 'n', 'k', 'n', 'o', 'w', 'n', ' ', 'f', 'i', 'e', 'l', 'd', ' ', '\''] + self.0@ + seq!['\''],
    {
        proof {
            reveal_strlit("unknown field '");
            reveal_strlit("'");
        }
        let mut m = String::from_str("unknown field '");
        m.append(self.0.as_str());
        m.append("'");
        m
    }
}

impl core::str::FromStr for Field {
    type Err = ParseFieldError;

    fn from_str(s: &str) -> (r: Result<Field, ParseFieldError>)
        ensures
            field_named(ascii_lower(s@)) matches Some(f) ==> r == Ok::<Field, ParseFieldError>(f),
            field_named(ascii_lower(s@)) is None ==> (r matches Err(e) && e.0@ == s@),
    {
        Field::parse(s)
    }
}

} // verus!
