//! Text handling: decoding of the bytes that arrive over the C interface,
//! decimal numbers, consumer group names and error messages.
use vstd::prelude::*;
use vstd::utf8::{decode_utf8, valid_utf8};

verus! {

/// What `String::from_utf8_lossy` makes of a byte sequence.
pub uninterp spec fn utf8_lossy(bytes: Seq<u8>) -> Seq<char>;

/// `String::from_utf8_lossy(bytes).to_string()`: the text named
/// `utf8_lossy(bytes)`, which for valid UTF-8 is its plain decoding (std
/// replaces only invalid sequences, by U+FFFD).
#[verifier::external_body]
pub(crate) fn decode_lossy(bytes: &[u8]) -> (text: String)
    ensures
        text@ == utf8_lossy(bytes@),
        valid_utf8(bytes@) ==> text@ == decode_utf8(bytes@),
{
    String::from_utf8_lossy(bytes).to_string()
}

/// `String::push`: appends `c` to the end of `text`.
#[verifier::external_body]
fn push_char(text: &mut String, c: char)
    ensures
        final(text)@ == old(text)@.push(c),
{
    text.push(c)
}

/// The character of the decimal digit `d`.
pub open spec fn digit_char(d: int) -> char {
    (d + 48) as char
}

/// The decimal notation of `n`, most significant digit first, without
/// leading zeros.
pub open spec fn decimal(n: nat) -> Seq<char>
    decreases n,
{
    if n < 10 {
        seq![digit_char(n as int)]
    } else {
        decimal(n / 10).push(digit_char((n % 10) as int))
    }
}

/// Whether `c` is one of the digits `0` to `9`.
pub open spec fn is_digit(c: char) -> bool {
    '0' <= c <= '9'
}

/// The text that separates a topic from the serial number in a group name.
pub open spec fn group_separator() -> Seq<char> {
    seq!['-', 'g', 'r', 'o', 'u', 'p', '-']
}

/// The consumer group name of the `n`-th consumer created for `topic`.
pub open spec fn group_name(topic: Seq<char>, n: nat) -> Seq<char> {
    topic + group_separator() + decimal(n)
}

/// Whether `text` starts with `prefix`.
pub open spec fn has_prefix(text: Seq<char>, prefix: Seq<char>) -> bool {
    prefix.len() <= text.len() && text.subrange(0, prefix.len() as int) == prefix
}

fn digit(d: u64) -> (c: char)
    requires
        d < 10,
    ensures
        c == digit_char(d as int),
{
    let b: u8 = d as u8 + 48u8;
    b as char
}

/// The decimal notation of `n`, as `format!("{}", n)` writes it.
pub fn decimal_string(n: u64) -> (text: String)
    ensures
        text@ == decimal(n as nat),
    decreases n,
{
    if n < 10 {
        let mut text = String::new();
        push_char(&mut text, digit(n));
        text
    } else {
        let mut text = decimal_string(n / 10);
        push_char(&mut text, digit(n % 10));
        text
    }
}

/// The consumer group name `{topic}-group-{n}`.
pub fn group_id_for(topic: &str, n: u64) -> (id: String)
    ensures
        id@ == group_name(topic@, n as nat),
{
    let mut id = topic.to_owned();
    let separator = "-group-";
    proof {
        reveal_strlit("-group-");
    }
    assert(separator@ =~= group_separator());
    id.append(separator);
    let digits = decimal_string(n);
    id.append(digits.as_str());
    id
}

/// The message `{prefix}{detail}`.
pub fn prefixed(prefix: &str, detail: &str) -> (message: String)
    ensures
        message@ == prefix@ + detail@,
        has_prefix(message@, prefix@),
{
    let mut message = prefix.to_owned();
    message.append(detail);
    assert(message@.subrange(0, prefix@.len() as int) =~= prefix@);
    message
}

/// Whether `text` holds a NUL character.
pub fn has_nul(text: &str) -> (r: bool)
    ensures
        r == text@.contains('\0'),
{
    let n = text.unicode_len();
    let mut i: usize = 0;
    while i < n
        invariant
            n == text@.len(),
            i <= n,
            forall|j: int| 0 <= j < i ==> text@[j] != '\0',
        decreases n - i,
    {
        if text.get_char(i) == '\0' {
            return true;
        }
        i = i + 1;
    }
    false
}

/// A group name holds a NUL wherever its topic does.
pub proof fn lemma_group_name_nul(topic: Seq<char>, n: nat)
    ensures
        group_name(topic, n).contains('\0') <== topic.contains('\0'),
{
    if topic.contains('\0') {
        let i = choose|i: int| 0 <= i < topic.len() && topic[i] == '\0';
        assert(group_name(topic, n)[i] == '\0');
    }
}

/// Every character of a decimal notation is a digit, and there is at least one.
pub proof fn lemma_decimal_digits(n: nat)
    ensures
        decimal(n).len() >= 1,
        forall|i: int| 0 <= i < decimal(n).len() ==> is_digit(#[trigger] decimal(n)[i]),
    decreases n,
{
    if n >= 10 {
        lemma_decimal_digits(n / 10);
    }
}

/// Distinct numbers have distinct decimal notations.
pub proof fn lemma_decimal_injective(a: nat, b: nat)
    requires
        decimal(a) == decimal(b),
    ensures
        a == b,
    decreases a,
{
    lemma_decimal_digits(a);
    lemma_decimal_digits(b);
    if a < 10 && b < 10 {
        assert(decimal(a)[0] == digit_char(a as int));
        assert(decimal(b)[0] == digit_char(b as int));
        assert(digit_char(a as int) as int == a + 48);
        assert(digit_char(b as int) as int == b + 48);
        assert(a == b);
    } else if a < 10 {
        lemma_decimal_digits(b / 10);
        assert(decimal(b).len() >= 2);
        assert(decimal(a).len() == 1);
    } else if b < 10 {
        lemma_decimal_digits(a / 10);
        assert(decimal(a).len() >= 2);
        assert(decimal(b).len() == 1);
    } else {
        let da = decimal(a / 10);
        let db = decimal(b / 10);
        assert(decimal(a).last() == digit_char((a % 10) as int));
        assert(decimal(b).last() == digit_char((b % 10) as int));
        assert(a % 10 == b % 10);
        assert(da =~= decimal(a).drop_last());
        assert(db =~= decimal(b).drop_last());
        lemma_decimal_injective(a / 10, b / 10);
        assert(digit_char((a % 10) as int) as int == a % 10 + 48);
        assert(digit_char((b % 10) as int) as int == b % 10 + 48);
        assert(a == 10 * (a / 10) + a % 10);
        assert(b == 10 * (b / 10) + b % 10);
    }
}

/// A group name determines its topic and its serial number: the serial
/// number is the run of digits after the last `-`.
pub proof fn lemma_group_name_injective(t1: Seq<char>, n1: nat, t2: Seq<char>, n2: nat)
    requires
        group_name(t1, n1) == group_name(t2, n2),
    ensures
        t1 == t2,
        n1 == n2,
{
    let s = group_name(t1, n1);
    let d1 = decimal(n1);
    let d2 = decimal(n2);
    lemma_decimal_digits(n1);
    lemma_decimal_digits(n2);
    let sep = group_separator();
    assert(s.len() == t1.len() + 7 + d1.len());
    assert(s.len() == t2.len() + 7 + d2.len());
    // the last `-` of the name stands just before the digits
    if d1.len() < d2.len() {
        let p = s.len() - d1.len() - 1;
        assert(group_name(t1, n1)[p] == sep[6]);
        assert(group_name(t2, n2)[p] == d2[p - t2.len() - 7]);
        assert(is_digit(d2[p - t2.len() - 7]));
        assert(false);
    } else if d2.len() < d1.len() {
        let p = s.len() - d2.len() - 1;
        assert(group_name(t2, n2)[p] == sep[6]);
        assert(group_name(t1, n1)[p] == d1[p - t1.len() - 7]);
        assert(is_digit(d1[p - t1.len() - 7]));
        assert(false);
    }
    assert(d1 =~= s.subrange(s.len() - d1.len(), s.len() as int));
    assert(d2 =~= s.subrange(s.len() - d2.len(), s.len() as int));
    lemma_decimal_injective(n1, n2);
    assert(t1 =~= s.subrange(0, t1.len() as int));
    assert(t2 =~= s.subrange(0, t2.len() as int));
}

} // verus!
