//! Text helpers: decimal numbers and storage paths.

use vstd::prelude::*;
use vstd::std_specs::iter::IteratorSpec;
use vstd::string::StringExecFns;

verus! {

/// The value of a decimal digit, if `c` is one.
pub open spec fn digit_value(c: char) -> Option<nat> {
    if c == '0' {
        Some(0)
    } else if c == '1' {
        Some(1)
    } else if c == '2' {
        Some(2)
    } else if c == '3' {
        Some(3)
    } else if c == '4' {
        Some(4)
    } else if c == '5' {
        Some(5)
    } else if c == '6' {
        Some(6)
    } else if c == '7' {
        Some(7)
    } else if c == '8' {
        Some(8)
    } else if c == '9' {
        Some(9)
    } else {
        None
    }
}

/// Whether `text` is a non-empty run of decimal digits.
pub open spec fn is_decimal(text: Seq<char>) -> bool {
    &&& text.len() > 0
    &&& forall|i: int| 0 <= i < text.len() ==> (#[trigger] digit_value(text[i])) is Some
}

/// The number that a run of decimal digits denotes, most significant digit first.
pub open spec fn decimal_value(text: Seq<char>) -> nat
    decreases text.len(),
{
    if text.len() == 0 {
        0
    } else {
        decimal_value(text.drop_last()) * 10 + match digit_value(text.last()) {
            Some(d) => d,
            None => 0,
        }
    }
}

fn digit_of(c: char) -> (d: Option<u8>)
    ensures
        match d {
            Some(v) => digit_value(c) == Some(v as nat),
            None => digit_value(c) is None,
        },
{
    if c == '0' {
        Some(0)
    } else if c == '1' {
        Some(1)
    } else if c == '2' {
        Some(2)
    } else if c == '3' {
        Some(3)
    } else if c == '4' {
        Some(4)
    } else if c == '5' {
        Some(5)
    } else if c == '6' {
        Some(6)
    } else if c == '7' {
        Some(7)
    } else if c == '8' {
        Some(8)
    } else if c == '9' {
        Some(9)
    } else {
        None
    }
}

/// The text after an optional leading plus sign.
pub open spec fn unsigned_body(text: Seq<char>) -> Seq<char> {
    if text.len() > 0 && text[0] == '+' {
        text.skip(1)
    } else {
        text
    }
}

/// The number that `text` denotes: an optional plus sign followed by one or
/// more decimal digits and nothing else.
pub open spec fn parsed_number(text: Seq<char>) -> Option<nat> {
    if is_decimal(unsigned_body(text)) {
        Some(decimal_value(unsigned_body(text)))
    } else {
        None
    }
}

/// The index that `text` denotes, if it denotes a number that fits a `usize`.
pub open spec fn index_of_text(text: Seq<char>) -> Option<usize> {
    match parsed_number(text) {
        Some(v) => if v <= usize::MAX {
            Some(v as usize)
        } else {
            None
        },
        None => None,
    }
}

/// Reading one more digit multiplies by ten and adds the digit.
pub proof fn lemma_decimal_value_push(text: Seq<char>, c: char)
    ensures
        decimal_value(text.push(c)) == decimal_value(text) * 10 + match digit_value(c) {
            Some(d) => d,
            None => 0,
        },
{
    assert(text.push(c).drop_last() =~= text);
}

/// A prefix of a run of digits denotes no more than the whole run.
pub proof fn lemma_decimal_value_prefix(text: Seq<char>, k: int)
    requires
        0 <= k <= text.len(),
    ensures
        decimal_value(text.take(k)) <= decimal_value(text),
    decreases text.len() - k,
{
    if k < text.len() {
        lemma_decimal_value_prefix(text, k + 1);
        assert(text.take(k + 1).drop_last() =~= text.take(k));
        assert(decimal_value(text.take(k + 1)) >= decimal_value(text.take(k)) * 10);
    } else {
        assert(text.take(k) =~= text);
    }
}

/// Parses an index as the standard library parses a `usize`: an optional
/// plus sign, then decimal digits only; `None` for anything else and for a
/// number that does not fit.
pub fn parse_index(text: &str) -> (parsed: Option<usize>)
    ensures
        parsed == index_of_text(text@),
{
    broadcast use vstd::string::group_string_axioms;

    let mut acc: usize = 0;
    let mut at_start: bool = true;
    let mut signed: bool = false;
    let mut digits: bool = false;
    for c in it: text.chars()
        invariant
            it.seq() == text@,
            at_start <==> it.index() == 0,
            signed <==> (it.index() >= 1 && text@[0] == '+'),
            digits <==> it.index() > (if signed { 1int } else { 0int }),
            forall|j: int|
                (if signed { 1int } else { 0int }) <= j < it.index() ==> (#[trigger] digit_value(
                    text@[j],
                )) is Some,
            acc == decimal_value(text@.subrange(if signed { 1int } else { 0int }, it.index())),
    {
        let ghost start = if signed { 1int } else { 0int };
        let ghost i = it.index();
        if at_start && c == '+' {
            signed = true;
            at_start = false;
            assert(text@.subrange(1, 1) =~= Seq::<char>::empty());
        } else {
            at_start = false;
            let ghost body = unsigned_body(text@);
            assert(body =~= text@.subrange(start, text@.len() as int));
            assert(body[i - start] == c);
            let d: u8 = match digit_of(c) {
                Some(d) => d,
                None => {
                    return None;
                },
            };
            proof {
                lemma_decimal_value_push(text@.subrange(start, i), c);
                assert(text@.subrange(start, i).push(c) =~= text@.subrange(start, i + 1));
                assert(body.take(i + 1 - start) =~= text@.subrange(start, i + 1));
                lemma_decimal_value_prefix(body, i + 1 - start);
            }
            let scaled: usize = match acc.checked_mul(10) {
                Some(m) => m,
                None => {
                    return None;
                },
            };
            acc = match scaled.checked_add(d as usize) {
                Some(v) => v,
                None => {
                    return None;
                },
            };
            digits = true;
        }
    }
    proof {
        let start = if signed { 1int } else { 0int };
        assert(unsigned_body(text@) =~= text@.subrange(start, text@.len() as int));
    }
    if digits {
        Some(acc)
    } else {
        None
    }
}

/// The character that shows a digit.
pub open spec fn digit_char(d: nat) -> char {
    if d == 0 {
        '0'
    } else if d == 1 {
        '1'
    } else if d == 2 {
        '2'
    } else if d == 3 {
        '3'
    } else if d == 4 {
        '4'
    } else if d == 5 {
        '5'
    } else if d == 6 {
        '6'
    } else if d == 7 {
        '7'
    } else if d == 8 {
        '8'
    } else {
        '9'
    }
}

/// The decimal digits of `n`, most significant first, without leading zeros.
pub open spec fn decimal_text(n: nat) -> Seq<char>
    decreases n,
{
    if n < 10 {
        seq![digit_char(n)]
    } else {
        decimal_text(n / 10).push(digit_char(n % 10))
    }
}

fn digit_str(d: u128) -> (s: &'static str)
    requires
        d < 10,
    ensures
        s@ == seq![digit_char(d as nat)],
{
    proof {
        reveal_strlit("0");
        reveal_strlit("1");
        reveal_strlit("2");
        reveal_strlit("3");
        reveal_strlit("4");
        reveal_strlit("5");
        reveal_strlit("6");
        reveal_strlit("7");
        reveal_strlit("8");
        reveal_strlit("9");
    }
    let s: &'static str = if d == 0 {
        "0"
    } else if d == 1 {
        "1"
    } else if d == 2 {
        "2"
    } else if d == 3 {
        "3"
    } else if d == 4 {
        "4"
    } else if d == 5 {
        "5"
    } else if d == 6 {
        "6"
    } else if d == 7 {
        "7"
    } else if d == 8 {
        "8"
    } else {
        "9"
    };
    assert(s@ =~= seq![digit_char(d as nat)]);
    s
}

/// Appends the decimal digits of `n` to `out`.
pub fn push_decimal(out: &mut String, n: u128)
    ensures
        final(out)@ == old(out)@ + decimal_text(n as nat),
    decreases n,
{
    if n >= 10 {
        push_decimal(out, n / 10);
    }
    out.append(digit_str(n % 10));
    assert(final(out)@ =~= old(out)@ + decimal_text(n as nat)) by {
        if n >= 10 {
            assert(decimal_text(n as nat) == decimal_text((n / 10) as nat).push(
                digit_char((n % 10) as nat),
            ));
        }
    }
}

/// The decimal digits of `n` as a string.
pub fn decimal_string(n: u128) -> (text: String)
    ensures
        text@ == decimal_text(n as nat),
{
    let mut text: String = String::new();
    push_decimal(&mut text, n);
    assert(Seq::<char>::empty() + decimal_text(n as nat) =~= decimal_text(n as nat));
    text
}

/// Writing a number in decimal and reading it back gives the number: the
/// digits are a plain run of decimal digits whose value is `n`.
pub proof fn lemma_decimal_round_trip(n: nat)
    ensures
        is_decimal(decimal_text(n)),
        decimal_value(decimal_text(n)) == n,
        parsed_number(decimal_text(n)) == Some(n),
    decreases n,
{
    let text = decimal_text(n);
    if n < 10 {
        assert(text.drop_last() =~= Seq::<char>::empty());
        assert(digit_value(digit_char(n)) == Some(n));
        assert(decimal_value(text.drop_last()) == 0);
    } else {
        lemma_decimal_round_trip(n / 10);
        lemma_decimal_value_push(decimal_text(n / 10), digit_char(n % 10));
        assert(digit_value(digit_char(n % 10)) == Some(n % 10));
        assert forall|i: int| 0 <= i < text.len() implies (#[trigger] digit_value(text[i])) is Some by {
            if i < text.len() - 1 {
                assert(text[i] == decimal_text(n / 10)[i]);
            }
        }
    }
    assert(digit_value(text[0]) is Some);
    assert(unsigned_body(text) == text);
}

/// Different numbers have different decimal digits.
pub proof fn lemma_decimal_text_injective(a: nat, b: nat)
    requires
        decimal_text(a) == decimal_text(b),
    ensures
        a == b,
{
    lemma_decimal_round_trip(a);
    lemma_decimal_round_trip(b);
}

/// `name` placed inside the directory `base`.
pub open spec fn joined(base: Seq<char>, name: Seq<char>) -> Seq<char> {
    base + seq!['/'] + name
}

/// The path of `name` inside the directory `base`.
pub fn join_path(base: &str, name: &str) -> (path: String)
    ensures
        path@ == joined(base@, name@),
{
    proof {
        reveal_strlit("/");
    }
    let mut path: String = String::from_str(base);
    path.append("/");
    path.append(name);
    assert("/"@ =~= seq!['/']);
    path
}

/// Whether two strings hold the same text.
pub fn same_text(a: &str, b: &str) -> (same: bool)
    ensures
        same == (a@ == b@),
{
    let left: String = String::from_str(a);
    let right: String = String::from_str(b);
    left == right
}

/// Whether `path` lies below the directory `dir`.
pub open spec fn inside(dir: Seq<char>, path: Seq<char>) -> bool {
    path.len() > dir.len() && path.subrange(0, dir.len() as int + 1) == dir.push('/')
}

/// Whether `path` lies below the directory `dir`.
pub fn is_inside(dir: &str, path: &str) -> (below: bool)
    ensures
        below == inside(dir@, path@),
{
    broadcast use vstd::string::group_string_axioms;

    let mut rest_of_dir = dir.chars();
    let mut rest_of_path = path.chars();
    let ghost mut at: int = 0;
    loop
        invariant
            0 <= at <= dir@.len(),
            at <= path@.len(),
            rest_of_dir.remaining() == dir@.skip(at),
            rest_of_path.remaining() == path@.skip(at),
            forall|k: int| 0 <= k < at ==> dir@[k] == path@[k],
        ensures
            at == dir@.len(),
        decreases dir@.len() - at,
    {
        match rest_of_dir.next() {
            Some(expected) => {
                assert(expected == dir@[at]);
                match rest_of_path.next() {
                    Some(found) => {
                        assert(found == path@[at]);
                        if found != expected {
                            proof {
                                if inside(dir@, path@) {
                                    assert(path@.subrange(0, dir@.len() as int + 1)[at] == dir@.push(
                                        '/',
                                    )[at]);
                                }
                            }
                            return false;
                        }
                    },
                    None => {
                        return false;
                    },
                }
                proof {
                    assert(dir@.skip(at).drop_first() =~= dir@.skip(at + 1));
                    assert(path@.skip(at).drop_first() =~= path@.skip(at + 1));
                    at = at + 1;
                }
            },
            None => {
                break;
            },
        }
    }
    match rest_of_path.next() {
        Some(found) => {
            assert(found == path@[at]);
            proof {
                if found == '/' {
                    assert(path@.subrange(0, at + 1) =~= dir@.push('/'));
                } else if inside(dir@, path@) {
                    assert(path@.subrange(0, at + 1)[at] == dir@.push('/')[at]);
                }
            }
            found == '/'
        },
        None => false,
    }
}

/// The view of an optional string.
pub open spec fn text_view(text: Option<String>) -> Option<Seq<char>> {
    match text {
        Some(t) => Some(t@),
        None => None,
    }
}

/// The view of an optional string slice.
pub open spec fn str_view(text: Option<&str>) -> Option<Seq<char>> {
    match text {
        Some(t) => Some(t@),
        None => None,
    }
}

} // verus!
