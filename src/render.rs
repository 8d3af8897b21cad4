//! Text of a listing: the header line and one row per visible entry.

use vstd::prelude::*;
use crate::args::Args;
use crate::colors::Color;
use crate::entry::{DateTime, PrintEntry};
use crate::size::{
    Format,
    decimal_text,
    digits,
    get_human_readable_size_as_string,
    size_text,
    spaces,
};

verus! {

/// `s` preceded by zeros up to width `w`.
pub open spec fn zero_pad(s: Seq<char>, w: nat) -> Seq<char> {
    if s.len() < w {
        Seq::new((w - s.len()) as nat, |i: int| '0') + s
    } else {
        s
    }
}

/// A year with at least four digits; years past 9999 carry a plus sign and
/// years before 0 a minus sign.
pub open spec fn year_text(y: int) -> Seq<char> {
    if 0 <= y <= 9999 {
        zero_pad(digits(y as nat), 4)
    } else if y > 9999 {
        seq!['+'] + digits(y as nat)
    } else {
        seq!['-'] + zero_pad(digits((-y) as nat), 4)
    }
}

/// `YYYY-MM-DD HH:MM:SS`.
pub open spec fn date_text(d: DateTime) -> Seq<char> {
    year_text(d.year as int) + seq!['-'] + zero_pad(digits(d.month as nat), 2) + seq!['-']
        + zero_pad(digits(d.day as nat), 2) + seq![' '] + zero_pad(digits(d.hour as nat), 2)
        + seq![':'] + zero_pad(digits(d.minute as nat), 2) + seq![':'] + zero_pad(
        digits(d.second as nat),
        2,
    )
}

/// Text of an absent timestamp, as wide as a present one.
pub open spec fn no_date_text() -> Seq<char> {
    "---------- --:--:--"@
}

pub open spec fn time_text(t: Option<DateTime>) -> Seq<char> {
    match t {
        None => no_date_text(),
        Some(d) => date_text(d),
    }
}

/// A date of the years 0 to 9999 takes as many characters as the text of an
/// absent date, so that the columns of a listing stay aligned.
pub proof fn lemma_date_text_width(d: DateTime)
    requires
        d.wf(),
        0 <= d.year <= 9999,
    ensures
        date_text(d).len() == no_date_text().len(),
        no_date_text().len() == 19,
{
    reveal_with_fuel(digits, 5);
    reveal_strlit("---------- --:--:--");
}

/// One column value of a row.
pub open spec fn field(text: Seq<char>) -> Seq<char> {
    "["@ + text + "] "@
}

pub open spec fn field_if(shown: bool, text: Seq<char>) -> Seq<char> {
    if shown {
        field(text)
    } else {
        Seq::empty()
    }
}

/// Everything a row shows before the name: the kind marker, then each
/// requested column in the order created, modified, accessed, size.
pub open spec fn row_prefix(e: &PrintEntry, args: &Args) -> Seq<char> {
    seq![e.kind.spec_marker(), ' '] + field_if(args.creation_date, time_text(e.created))
        + field_if(args.modification_date, time_text(e.modified)) + field_if(
        args.access_date,
        time_text(e.accessed),
    ) + field_if(args.size, size_text(args.format, e.size as nat))
}

/// Names that start with a dot are hidden.
pub open spec fn is_hidden(name: Seq<char>) -> bool {
    name.len() > 0 && name[0] == '.'
}

/// `s` centred in a field of width `w`; an odd space goes to the right.
pub open spec fn centered(s: Seq<char>, w: nat) -> Seq<char> {
    if s.len() < w {
        spaces(((w - s.len()) as nat) / 2) + s + spaces(
            ((w - s.len()) as nat - ((w - s.len()) as nat) / 2) as nat,
        )
    } else {
        s
    }
}

/// Width of the size column: the size text, its brackets and a space.
pub open spec fn size_column_width(f: Format) -> nat {
    match f {
        Format::Iec => 14,
        Format::Si => 12,
    }
}

pub open spec fn centered_if(shown: bool, s: Seq<char>, w: nat) -> Seq<char> {
    if shown {
        centered(s, w)
    } else {
        Seq::empty()
    }
}

/// Header line: a label for each requested column, in row order, then `Name`.
pub open spec fn header_text(args: &Args) -> Seq<char> {
    "  "@ + centered_if(args.creation_date, "Created"@, 22) + centered_if(
        args.modification_date,
        "Last modified"@,
        22,
    ) + centered_if(args.access_date, "Last accessed"@, 22) + centered_if(
        args.size,
        "Size"@,
        size_column_width(args.format),
    ) + "Name"@
}

/// One row of a listing, in pieces that are shown in different colours.
pub struct Row {
    /// Kind marker and column values.
    pub prefix: String,
    /// Name, shown in `color`.
    pub name: String,
    pub color: Color,
    /// ` -> ` and the reason the metadata could not be read, shown in the
    /// error colour.
    pub error: Option<String>,
}

fn push_spaces(s: &mut String, n: usize)
    ensures
        final(s)@ == old(s)@ + spaces(n as nat),
{
    let ghost start = s@;
    let mut i: usize = 0;
    while i < n
        invariant
            i <= n,
            s@ =~= start + spaces(i as nat),
        decreases n - i,
    {
        proof {
            reveal_strlit(" ");
        }
        s.append(" ");
        i = i + 1;
    }
}

fn zero_padded(n: u128, w: usize) -> (r: String)
    ensures
        r@ == zero_pad(digits(n as nat), w as nat),
{
    let text = decimal_text(n);
    let len = text.as_str().unicode_len();
    let mut out = String::new();
    if len < w {
        let mut i: usize = 0;
        while i < w - len
            invariant
                len < w,
                i <= w - len,
                out@ =~= Seq::new(i as nat, |j: int| '0'),
            decreases w - len - i,
        {
            proof {
                reveal_strlit("0");
            }
            out.append("0");
            i = i + 1;
        }
    }
    out.append(text.as_str());
    assert(out@ =~= zero_pad(digits(n as nat), w as nat));
    out
}

/// Text of a date and time.
pub fn format_date_time(d: &DateTime) -> (r: String)
    ensures
        r@ == date_text(*d),
{
    let mut s = if d.year < 0 {
        let mut t = String::from_str("-");
        let y = zero_padded((0i64 - d.year as i64) as u128, 4);
        t.append(y.as_str());
        t
    } else if d.year > 9999 {
        let mut t = String::from_str("+");
        let y = decimal_text(d.year as u128);
        t.append(y.as_str());
        t
    } else {
        zero_padded(d.year as u128, 4)
    };
    proof {
        reveal_strlit("-");
        reveal_strlit("+");
        reveal_strlit(" ");
        reveal_strlit(":");
    }
    assert(s@ =~= year_text(d.year as int));
    s.append("-");
    s.append(zero_padded(d.month as u128, 2).as_str());
    s.append("-");
    s.append(zero_padded(d.day as u128, 2).as_str());
    s.append(" ");
    s.append(zero_padded(d.hour as u128, 2).as_str());
    s.append(":");
    s.append(zero_padded(d.minute as u128, 2).as_str());
    s.append(":");
    s.append(zero_padded(d.second as u128, 2).as_str());
    assert(s@ =~= date_text(*d));
    s
}

/// Text of a timestamp, or the placeholder where there is none.
pub fn format_time(t: &Option<DateTime>) -> (r: String)
    ensures
        r@ == time_text(*t),
{
    match t {
        None => String::from_str("---------- --:--:--"),
        Some(d) => format_date_time(d),
    }
}

fn push_field(s: &mut String, text: &str)
    ensures
        final(s)@ == old(s)@ + field(text@),
{
    let ghost start = s@;
    s.append("[");
    s.append(text);
    s.append("] ");
    assert(s@ =~= start + field(text@));
}

/// Whether a name starts with a dot.
pub fn name_is_hidden(name: &str) -> (r: bool)
    ensures
        r == is_hidden(name@),
{
    if name.unicode_len() == 0 {
        false
    } else {
        name.get_char(0) == '.'
    }
}

impl PrintEntry {
    /// The row of this entry, or `None` where the entry is hidden and hidden
    /// entries are not shown.
    pub fn render(&self, args: &Args) -> (r: Option<Row>)
        ensures
            r is None <==> (!args.sys && is_hidden(self.name@)),
            r matches Some(row) ==> {
                &&& row.prefix@ == row_prefix(self, args)
                &&& row.name@ == self.name@
                &&& row.color == self.color
                &&& match self.error {
                    None => row.error is None,
                    Some(e) => row.error matches Some(t) && t@ == " -> "@ + e@,
                }
            },
    {
        if !args.sys && name_is_hidden(self.name.as_str()) {
            return None;
        }
        let mut prefix = String::new();
        let mut head = String::new();
        let marker = self.kind.marker();
        let m = if marker == 'D' {
            "D "
        } else if marker == 'F' {
            "F "
        } else if marker == 'S' {
            "S "
        } else {
            "U "
        };
        proof {
            reveal_strlit("D ");
            reveal_strlit("F ");
            reveal_strlit("S ");
            reveal_strlit("U ");
        }
        prefix.append(m);
        assert(prefix@ =~= seq![self.kind.spec_marker(), ' ']);
        if args.creation_date {
            push_field(&mut prefix, format_time(&self.created).as_str());
        }
        if args.modification_date {
            push_field(&mut prefix, format_time(&self.modified).as_str());
        }
        if args.access_date {
            push_field(&mut prefix, format_time(&self.accessed).as_str());
        }
        if args.size {
            push_field(
                &mut prefix,
                get_human_readable_size_as_string(args.format, self.size).as_str(),
            );
        }
        assert(prefix@ =~= row_prefix(self, args));
        let error = match &self.error {
            None => None,
            Some(e) => {
                let mut t = String::from_str(" -> ");
                t.append(e.as_str());
                Some(t)
            },
        };
        Some(Row { prefix, name: self.name.clone(), color: self.color, error })
    }
}

fn push_centered(s: &mut String, label: &str, w: usize)
    ensures
        final(s)@ == old(s)@ + centered(label@, w as nat),
{
    let ghost start = s@;
    let len = label.unicode_len();
    if len < w {
        let fill = w - len;
        push_spaces(s, fill / 2);
        s.append(label);
        push_spaces(s, fill - fill / 2);
    } else {
        s.append(label);
    }
    assert(s@ =~= start + centered(label@, w as nat));
}

/// The header line of a listing.
pub fn header_line(args: &Args) -> (r: String)
    ensures
        r@ == header_text(args),
{
    let mut s = String::from_str("  ");
    if args.creation_date {
        push_centered(&mut s, "Created", 22);
    }
    if args.modification_date {
        push_centered(&mut s, "Last modified", 22);
    }
    if args.access_date {
        push_centered(&mut s, "Last accessed", 22);
    }
    if args.size {
        let w: usize = match args.format {
            Format::Iec => 14,
            Format::Si => 12,
        };
        push_centered(&mut s, "Size", w);
    }
    s.append("Name");
    assert(s@ =~= header_text(args));
    s
}

} // verus!
