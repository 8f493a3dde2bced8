//! Building text: decimal numbers, padding, indentation, columns.
use vstd::prelude::*;
use vstd::string::*;

verus! {

/// `n` spaces.
pub open spec fn spaces(n: nat) -> Seq<char> {
    Seq::new(n, |i: int| ' ')
}

/// The decimal digit `d` as text.
pub open spec fn spec_digit(d: nat) -> Seq<char> {
    if d == 0 {
        seq!['0']
    } else if d == 1 {
        seq!['1']
    } else if d == 2 {
        seq!['2']
    } else if d == 3 {
        seq!['3']
    } else if d == 4 {
        seq!['4']
    } else if d == 5 {
        seq!['5']
    } else if d == 6 {
        seq!['6']
    } else if d == 7 {
        seq!['7']
    } else if d == 8 {
        seq!['8']
    } else {
        seq!['9']
    }
}

/// The number `n` in decimal, without leading zeros.
pub open spec fn spec_decimal(n: nat) -> Seq<char>
    decreases n,
{
    if n < 10 {
        spec_digit(n)
    } else {
        spec_decimal(n / 10) + spec_digit(n % 10)
    }
}

/// `text` behind as many spaces as it takes to fill `width` characters.
pub open spec fn spec_pad_left(text: Seq<char>, width: nat) -> Seq<char> {
    if text.len() < width {
        spaces((width - text.len()) as nat) + text
    } else {
        text
    }
}

/// The indentation of the lines at nesting depth `tab_level`: four spaces
/// for the body of the outermost aggregate, and four more for each level.
pub open spec fn spec_indent(tab_level: nat) -> Seq<char> {
    spaces(4 * (tab_level + 1))
}

/// The number of bytes behind the last line feed, or of all bytes where
/// there is none.
pub open spec fn bytes_after_newline(bytes: Seq<u8>) -> nat
    decreases bytes.len(),
{
    if bytes.len() == 0 {
        0
    } else if bytes.last() == 10u8 {
        0
    } else {
        1 + bytes_after_newline(bytes.drop_last())
    }
}

/// The length of the last line of `text`, in bytes of its UTF-8 form.
pub open spec fn spec_last_line_len(text: Seq<char>) -> nat {
    bytes_after_newline(vstd::utf8::encode_utf8(text))
}

/// Whether `text` ends with the character `c`.
pub open spec fn spec_ends_with(text: Seq<char>, c: char) -> bool {
    text.len() > 0 && text.last() == c
}

fn digit(d: usize) -> (text: &'static str)
    requires
        d < 10,
    ensures
        text@ == spec_digit(d as nat),
{
    proof {
        reveal_strlit("0");
        reveal_strlit("1");
        reveal_strlit("2");
        reveal_strlit("3");
        reveal_strlit("4");
        reveal_strlit("5");
        reveal_strlit("6");
        reveal_strlit("7");
        reveal_strlit("8");
        reveal_strlit("9");
    }
    let text = if d == 0 {
        "0"
    } else if d == 1 {
        "1"
    } else if d == 2 {
        "2"
    } else if d == 3 {
        "3"
    } else if d == 4 {
        "4"
    } else if d == 5 {
        "5"
    } else if d == 6 {
        "6"
    } else if d == 7 {
        "7"
    } else if d == 8 {
        "8"
    } else {
        "9"
    };
    assert(text@ =~= spec_digit(d as nat));
    text
}

/// Writes `n` in decimal.
pub fn decimal(n: usize) -> (text: String)
    ensures
        text@ == spec_decimal(n as nat),
    decreases n,
{
    if n < 10 {
        String::from_str(digit(n))
    } else {
        let mut text = decimal(n / 10);
        text.append(digit(n % 10));
        text
    }
}

/// Appends `n` spaces to `text`.
pub fn push_spaces(text: &mut String, n: usize)
    ensures
        final(text)@ == old(text)@ + spaces(n as nat),
{
    let ghost start = text@;
    let mut i: usize = 0;
    assert(start + spaces(0) =~= start);
    while i < n
        invariant
            i <= n,
            text@ == start + spaces(i as nat),
        decreases n - i,
    {
        proof {
            reveal_strlit(" ");
            assert(start + spaces(i as nat) + " "@ =~= start + spaces((i + 1) as nat));
        }
        text.append(" ");
        i += 1;
    }
}

/// Writes `text` behind as many spaces as it takes to fill `width`
/// characters.
pub fn pad_left(text: &str, width: usize) -> (padded: String)
    ensures
        padded@ == spec_pad_left(text@, width as nat),
{
    let len = text.unicode_len();
    let mut padded = String::new();
    if len < width {
        push_spaces(&mut padded, width - len);
    }
    assert(Seq::<char>::empty() + text@ =~= text@);
    padded.append(text);
    padded
}

/// Appends the indentation of nesting depth `tab_level` to `text`.
pub fn push_indent(text: &mut String, tab_level: usize)
    ensures
        final(text)@ == old(text)@ + spec_indent(tab_level as nat),
{
    let ghost start = text@;
    let mut i: usize = 0;
    assert(start + spaces(0) =~= start);
    loop
        invariant_except_break
            i <= tab_level,
            text@ == start + spaces(4 * (i as nat)),
        ensures
            text@ == start + spaces(4 * ((tab_level as nat) + 1)),
        decreases tab_level - i,
    {
        proof {
            reveal_strlit("    ");
            assert(start + spaces(4 * (i as nat)) + "    "@ =~= start + spaces(4 * ((i as nat) + 1)));
        }
        text.append("    ");
        if i == tab_level {
            break ;
        }
        i += 1;
    }
}

/// The length of the last line of `text`, in bytes.
pub fn last_line_len(text: &str) -> (len: usize)
    ensures
        len == spec_last_line_len(text@),
{
    let bytes = text.as_bytes();
    let mut len: usize = 0;
    let mut i: usize = 0;
    while i < bytes.len()
        invariant
            i <= bytes.len(),
            len <= i,
            len == bytes_after_newline(bytes@.take(i as int)),
        decreases bytes.len() - i,
    {
        assert(bytes@.take(i + 1).drop_last() == bytes@.take(i as int));
        if bytes[i] == 10u8 {
            len = 0;
        } else {
            len += 1;
        }
        i += 1;
    }
    assert(bytes@.take(i as int) == bytes@);
    len
}

/// Whether the last character of `text` is `c`.
pub fn ends_with(text: &str, c: char) -> (r: bool)
    ensures
        r == spec_ends_with(text@, c),
{
    let len = text.unicode_len();
    len > 0 && text.get_char(len - 1) == c
}

} // verus!
