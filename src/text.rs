use vstd::prelude::*;
use vstd::string::*;
use size_format::SizeFormatterBinary;
use unicode_width::UnicodeWidthStr;

verus! {

/// The number of terminal columns a piece of text occupies.
pub uninterp spec fn display_width(s: Seq<char>) -> nat;


/// The last component of a path, when there is one.
pub uninterp spec fn path_file_name(path: Seq<char>) -> Option<Seq<char>>;

/// Relies on `unicode_width::UnicodeWidthStr::width`: the displayed width of
/// the text in columns, which is zero for the empty text.
#[verifier::external_body]
pub(crate) fn text_width(s: &str) -> (r: usize)
    ensures
        r as nat == display_width(s@),
        s@.len() == 0 ==> r == 0,
{
    UnicodeWidthStr::width(s)
}

/// The unit prefix for `1024` to the power `d`.
pub open spec fn binary_prefix(d: nat) -> Seq<char> {
    if d == 0 {
        ""@
    } else if d == 1 {
        "Ki"@
    } else if d == 2 {
        "Mi"@
    } else if d == 3 {
        "Gi"@
    } else if d == 4 {
        "Ti"@
    } else if d == 5 {
        "Pi"@
    } else if d == 6 {
        "Ei"@
    } else if d == 7 {
        "Zi"@
    } else {
        "Yi"@
    }
}

/// `1024` to the power `d`.
pub open spec fn unit_power(d: nat) -> nat
    decreases d,
{
    if d == 0 {
        1
    } else {
        1024 * unit_power((d - 1) as nat)
    }
}

/// How many times `n` can be divided by `1024` before it drops below it.
pub open spec fn size_log(n: nat) -> nat
    decreases n,
{
    if n >= 1024 {
        1 + size_log(n / 1024)
    } else {
        0
    }
}

/// The unit a byte count is shown in: the largest power of 1024 not above
/// it, with at most the last prefix.
pub open spec fn size_divisions(n: nat) -> nat {
    if size_log(n) < 8 {
        size_log(n)
    } else {
        8
    }
}

/// A byte count in binary units: below 1024 the plain number; above, the
/// whole number of units, a point, the first decimal digit rounded down,
/// then the unit prefix (`2.0Ki`, `1.5Mi`).
pub open spec fn binary_size_text(bytes: u64) -> Seq<char> {
    let d = size_divisions(bytes as nat);
    let u = unit_power(d);
    let fraction = if d == 0 {
        Seq::empty()
    } else {
        "."@ + digit_text(10 * (bytes as nat % u) / u)
    };
    decimal_text(bytes as nat / u) + fraction + binary_prefix(d)
}

/// Relies on the `Display` impl of `size_format::SizeFormatterBinary` at its
/// default precision of one decimal digit.
#[verifier::external_body]
pub(crate) fn size_text(bytes: u64) -> (r: String)
    ensures
        r@ == binary_size_text(bytes),
{
    format!("{}", SizeFormatterBinary::new(bytes))
}

/// Relies on `std::path::Path::file_name`: the final component of the path,
/// if it has one that is valid UTF-8.
#[verifier::external_body]
pub(crate) fn file_name(path: &str) -> (r: Option<String>)
    ensures
        match r {
            Some(n) => path_file_name(path@) == Some(n@),
            None => path_file_name(path@) is None,
        },
{
    std::path::Path::new(path).file_name().and_then(|n| n.to_str()).map(|n| n.to_string())
}

/// The decimal digit `d` as a one-character text.
pub open spec fn digit_text(d: nat) -> Seq<char> {
    if d == 0 {
        "0"@
    } else if d == 1 {
        "1"@
    } else if d == 2 {
        "2"@
    } else if d == 3 {
        "3"@
    } else if d == 4 {
        "4"@
    } else if d == 5 {
        "5"@
    } else if d == 6 {
        "6"@
    } else if d == 7 {
        "7"@
    } else if d == 8 {
        "8"@
    } else {
        "9"@
    }
}

/// The decimal form of `n`, without sign or leading zeros.
pub open spec fn decimal_text(n: nat) -> Seq<char>
    decreases n,
{
    if n < 10 {
        digit_text(n)
    } else {
        decimal_text(n / 10) + digit_text(n % 10)
    }
}

/// `k` blanks.
pub open spec fn blanks(k: nat) -> Seq<char>
    decreases k,
{
    if k == 0 {
        Seq::empty()
    } else {
        blanks((k - 1) as nat) + " "@
    }
}

/// `s` right-aligned in a field of `width` characters, as `{:>width}` does.
pub open spec fn pad_left(s: Seq<char>, width: nat) -> Seq<char> {
    if s.len() < width {
        blanks((width - s.len()) as nat) + s
    } else {
        s
    }
}

fn digit_str(d: u128) -> (r: &'static str)
    requires
        d < 10,
    ensures
        r@ == digit_text(d as nat),
{
    match d {
        0 => "0",
        1 => "1",
        2 => "2",
        3 => "3",
        4 => "4",
        5 => "5",
        6 => "6",
        7 => "7",
        8 => "8",
        _ => "9",
    }
}

/// Writes `n` in decimal.
pub fn decimal(n: u128) -> (r: String)
    ensures
        r@ == decimal_text(n as nat),
    decreases n,
{
    if n < 10 {
        String::from_str(digit_str(n))
    } else {
        let mut s = decimal(n / 10);
        s.append(digit_str(n % 10));
        s
    }
}

/// Right-aligns `s` in a field of `width` characters.
pub fn pad_left_to(s: String, width: usize) -> (r: String)
    ensures
        r@ == pad_left(s@, width as nat),
{
    let len = s.as_str().unicode_len();
    if len < width {
        let mut out = String::new();
        let mut i: usize = 0;
        while i < width - len
            invariant
                i <= width - len,
                out@ == blanks(i as nat),
            decreases width - len - i,
        {
            out.append(" ");
            i = i + 1;
        }
        out.append(s.as_str());
        out
    } else {
        s
    }
}

} // verus!
