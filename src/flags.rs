//! Display options read from a list of command-line words.

use vstd::prelude::*;
use crate::colors::str_equals;
use crate::size::Format;

verus! {

/// Options of a listing as plain switches.
pub struct Flags {
    pub show_creation_date: bool,
    pub show_modification_date: bool,
    pub show_access_date: bool,
    pub show_size: bool,
    pub show_sys: bool,
    pub format: Format,
}

pub const DEFAULT_FORMAT: Format = Format::Iec;

/// Whether `word` is one of `args`.
pub open spec fn has_word(args: Seq<String>, word: Seq<char>) -> bool {
    exists|i: int| 0 <= i < args.len() && #[trigger] args[i]@ == word
}

pub open spec fn has_either(args: Seq<String>, short: Seq<char>, long: Seq<char>) -> bool {
    has_word(args, short) || has_word(args, long)
}

fn contains_word(args: &[String], word: &str) -> (r: bool)
    ensures
        r == has_word(args@, word@),
{
    let mut i: usize = 0;
    while i < args.len()
        invariant
            i <= args@.len(),
            forall|j: int| 0 <= j < i ==> #[trigger] args@[j]@ != word@,
        decreases args@.len() - i,
    {
        if str_equals(args[i].as_str(), word) {
            return true;
        }
        i = i + 1;
    }
    false
}

impl Flags {
    /// Reads the switches from `args`. Asking for both `--si` and `--iec`
    /// is an error; asking for neither gives IEC units.
    pub fn new(args: &[String]) -> (r: Result<Flags, String>)
        ensures
            (has_word(args@, "--si"@) && has_word(args@, "--iec"@)) <==> r is Err,
            r matches Err(e) ==> e@ == "Either SI format or IEC"@,
            r matches Ok(f) ==> {
                &&& f.show_creation_date == has_either(args@, "-c"@, "--creation"@)
                &&& f.show_modification_date == has_either(args@, "-m"@, "--modification"@)
                &&& f.show_access_date == has_either(args@, "-a"@, "--access"@)
                &&& f.show_size == has_either(args@, "-s"@, "--size"@)
                &&& f.show_sys == has_word(args@, "--show-sys"@)
                &&& f.format == if has_word(args@, "--si"@) {
                    Format::Si
                } else {
                    Format::Iec
                }
            },
    {
        let si = contains_word(args, "--si");
        let iec = contains_word(args, "--iec");
        if si && iec {
            return Err(String::from_str("Either SI format or IEC"));
        }
        let format = if si {
            Format::Si
        } else if iec {
            Format::Iec
        } else {
            DEFAULT_FORMAT
        };
        Ok(
            Flags {
                show_creation_date: contains_word(args, "-c") || contains_word(args, "--creation"),
                show_modification_date: contains_word(args, "-m") || contains_word(
                    args,
                    "--modification",
                ),
                show_access_date: contains_word(args, "-a") || contains_word(args, "--access"),
                show_size: contains_word(args, "-s") || contains_word(args, "--size"),
                show_sys: contains_word(args, "--show-sys"),
                format,
            },
        )
    }
}

/// Usage text of the switches that `Flags::new` reads.
pub open spec fn help_text() -> Seq<char> {
    "Flags:\n  -c | --creation: Show creation date\n  -m | --modification: Show modification date\n  -a | --access: show accessed date\n  -s | --size: Show size\n  --show-sys: Show dotfiles\n  --si: Show size in SI format\n  --iec: Show size in SI format\n"@
}

pub fn get_help() -> (r: &'static str)
    ensures
        r@ == help_text(),
{
    "Flags:\n  -c | --creation: Show creation date\n  -m | --modification: Show modification date\n  -a | --access: show accessed date\n  -s | --size: Show size\n  --show-sys: Show dotfiles\n  --si: Show size in SI format\n  --iec: Show size in SI format\n"
}

} // verus!
