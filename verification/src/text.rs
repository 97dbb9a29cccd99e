use vstd::prelude::*;

verus! {

/// The character that stands for the digit `d`.
pub open spec fn digit_char(d: int) -> char {
    if d == 0 {
        '0'
    } else if d == 1 {
        '1'
    } else if d == 2 {
        '2'
    } else if d == 3 {
        '3'
    } else if d == 4 {
        '4'
    } else if d == 5 {
        '5'
    } else if d == 6 {
        '6'
    } else if d == 7 {
        '7'
    } else if d == 8 {
        '8'
    } else {
        '9'
    }
}

/// The decimal numeral of `n`, without sign or leading zeros.
pub open spec fn decimal(n: nat) -> Seq<char>
    decreases n,
{
    if n < 10 {
        seq![digit_char(n as int)]
    } else {
        decimal(n / 10).push(digit_char((n % 10) as int))
    }
}

/// The path that names the object `key` in `bucket` as the source of a
/// copy: a slash, the bucket, a slash, the key.
pub open spec fn source_text(bucket: Seq<char>, key: Seq<char>) -> Seq<char> {
    seq!['/'] + bucket + seq!['/'] + key
}

/// The range header for the bytes from `first` to `last`, both included:
/// `bytes=`, the first position, a hyphen, the last position.
pub open spec fn range_text(first: nat, last: nat) -> Seq<char> {
    seq!['b', 'y', 't', 'e', 's', '='] + decimal(first) + seq!['-'] + decimal(last)
}

fn digit_text(d: u64) -> (text: &'static str)
    requires
        d < 10,
    ensures
        text@ == seq![digit_char(d as int)],
{
    proof {
        reveal_strlit("0");
        reveal_strlit("1");
        reveal_strlit("2");
        reveal_strlit("3");
        reveal_strlit("4");
        reveal_strlit("5");
        reveal_strlit("6");
        reveal_strlit("7");
        reveal_strlit("8");
        reveal_strlit("9");
    }
    let text: &'static str = if d == 0 {
        "0"
    } else if d == 1 {
        "1"
    } else if d == 2 {
        "2"
    } else if d == 3 {
        "3"
    } else if d == 4 {
        "4"
    } else if d == 5 {
        "5"
    } else if d == 6 {
        "6"
    } else if d == 7 {
        "7"
    } else if d == 8 {
        "8"
    } else {
        "9"
    };
    assert(text@ =~= seq![digit_char(d as int)]);
    text
}

/// Appends the decimal numeral of `n` to `text`.
pub fn push_decimal(text: &mut String, n: u64)
    ensures
        final(text)@ == old(text)@ + decimal(n as nat),
    decreases n,
{
    if n >= 10 {
        push_decimal(text, n / 10);
    }
    let ghost before = text@;
    text.append(digit_text(n % 10));
    assert(text@ =~= old(text)@ + decimal(n as nat)) by {
        if n >= 10 {
            assert(before == old(text)@ + decimal((n / 10) as nat));
        }
    }
}

/// Names the object `key` in `bucket` as the source of a copy.
pub fn copy_source(bucket: &str, key: &str) -> (source: String)
    ensures
        source@ == source_text(bucket@, key@),
{
    proof {
        reveal_strlit("/");
    }
    let mut source: String = String::from_str("/");
    assert(source@ =~= seq!['/']);
    source.append(bucket);
    source.append("/");
    source.append(key);
    assert(source@ =~= source_text(bucket@, key@));
    source
}

/// Writes the range header for the bytes from `first` to `last`, both
/// included.
pub fn copy_source_range(first: u64, last: u64) -> (range: String)
    ensures
        range@ == range_text(first as nat, last as nat),
{
    proof {
        reveal_strlit("bytes=");
        reveal_strlit("-");
    }
    let mut range: String = String::from_str("bytes=");
    assert(range@ =~= seq!['b', 'y', 't', 'e', 's', '=']);
    push_decimal(&mut range, first);
    range.append("-");
    push_decimal(&mut range, last);
    assert(range@ =~= range_text(first as nat, last as nat));
    range
}

} // verus!
