//! The wire format of a message record: the time-to-reserve in decimal, a
//! semicolon, and the serialized job. Only the first semicolon separates; the
//! job's own text may hold more of them.

use vstd::prelude::*;
use vstd::string::*;

verus! {

/// The character that stands for the digit `d`.
pub open spec fn digit_char(d: nat) -> char
    recommends
        d < 10,
{
    (48 + d) as char
}

/// Whether `c` is one of the ten ASCII digits.
pub open spec fn is_digit(c: char) -> bool {
    48 <= c as u32 && c as u32 <= 57
}

/// The decimal text of `n`, without leading zeros.
pub open spec fn decimal(n: nat) -> Seq<char>
    decreases n,
{
    if n < 10 {
        seq![digit_char(n)]
    } else {
        decimal(n / 10).push(digit_char(n % 10))
    }
}

/// The number that a text of digits stands for, most significant digit first.
pub open spec fn digits_value(s: Seq<char>) -> nat
    decreases s.len(),
{
    if s.len() == 0 {
        0
    } else {
        digits_value(s.drop_last()) * 10 + (s.last() as u32 - 48) as nat
    }
}

/// Whether `s` is a non-empty text of digits.
pub open spec fn is_number(s: Seq<char>) -> bool {
    s.len() > 0 && forall|i: int| 0 <= i < s.len() ==> is_digit(#[trigger] s[i])
}

/// A text without the plus sign that may lead it.
pub open spec fn unsigned_part(s: Seq<char>) -> Seq<char> {
    if s.len() > 0 && s[0] == '+' {
        s.drop_first()
    } else {
        s
    }
}

/// The time-to-reserve that a record's prefix stands for: digits, after an
/// optional plus sign, whose value fits in 32 bits.
pub open spec fn parsed_ttr(prefix: Seq<char>) -> Option<u32> {
    let body = unsigned_part(prefix);
    if is_number(body) && digits_value(body) <= u32::MAX {
        Some(digits_value(body) as u32)
    } else {
        None
    }
}

/// The position of the first semicolon of `s`, or the length of `s` where it
/// holds none.
pub open spec fn first_separator(s: Seq<char>) -> int
    decreases s.len(),
{
    if s.len() == 0 {
        0
    } else if s[0] == ';' {
        0
    } else {
        1 + first_separator(s.drop_first())
    }
}

/// The text of the record that carries `payload` with the time-to-reserve `ttr`.
pub open spec fn record_text(ttr: u32, payload: Seq<char>) -> Seq<char> {
    decimal(ttr as nat) + seq![';'] + payload
}

/// What a record's text holds: the time-to-reserve and the payload, or
/// nothing where the text has no separator or its prefix is no valid
/// time-to-reserve.
pub open spec fn parse_record_spec(record: Seq<char>) -> Option<(u32, Seq<char>)> {
    let cut = first_separator(record);
    if cut >= record.len() {
        None
    } else {
        match parsed_ttr(record.take(cut)) {
            Some(ttr) => Some((ttr, record.skip(cut + 1))),
            None => None,
        }
    }
}

/// The time-to-reserve of a record, or zero where the record is not valid.
pub open spec fn record_ttr(record: Seq<char>) -> u32 {
    match parse_record_spec(record) {
        Some((ttr, _)) => ttr,
        None => 0,
    }
}

/// The payload of a record, or nothing where the record is not valid.
pub open spec fn record_payload(record: Seq<char>) -> Seq<char> {
    match parse_record_spec(record) {
        Some((_, payload)) => payload,
        None => Seq::empty(),
    }
}

/// `first_separator` is within the text, nothing before it is a semicolon, and
/// where it is inside the text a semicolon stands there.
pub proof fn lemma_first_separator(s: Seq<char>)
    ensures
        0 <= first_separator(s) <= s.len(),
        forall|i: int| 0 <= i < first_separator(s) ==> s[i] != ';',
        first_separator(s) < s.len() ==> s[first_separator(s)] == ';',
    decreases s.len(),
{
    if s.len() > 0 && s[0] != ';' {
        let rest = s.drop_first();
        lemma_first_separator(rest);
        assert forall|i: int| 0 <= i < first_separator(s) implies s[i] != ';' by {
            if i > 0 {
                assert(s[i] == rest[i - 1]);
            }
        }
        if first_separator(s) < s.len() {
            assert(s[first_separator(s)] == rest[first_separator(rest)]);
        }
    }
}

/// A position is the first separator where a semicolon stands there and none
/// stands before it; the length is, where the text holds none.
pub proof fn lemma_first_separator_is(s: Seq<char>, at: int)
    requires
        0 <= at <= s.len(),
        forall|i: int| 0 <= i < at ==> s[i] != ';',
        at < s.len() ==> s[at] == ';',
    ensures
        first_separator(s) == at,
{
    lemma_first_separator(s);
    let f = first_separator(s);
    if f < at {
        assert(s[f] == ';');
    } else if at < f {
        assert(s[at] == ';');
    }
}

/// The value of a text of digits grows by one decimal place with each digit.
proof fn lemma_digits_value_push(s: Seq<char>, c: char)
    ensures
        digits_value(s.push(c)) == digits_value(s) * 10 + (c as u32 - 48) as nat,
{
    assert(s.push(c).drop_last() =~= s);
}

/// The decimal text of a number is a number's text, and stands for it.
pub proof fn lemma_decimal_value(n: nat)
    ensures
        is_number(decimal(n)),
        digits_value(decimal(n)) == n,
        decimal(n)[0] != '+',
    decreases n,
{
    if n < 10 {
        assert(decimal(n) =~= Seq::<char>::empty().push(digit_char(n)));
        lemma_digits_value_push(Seq::<char>::empty(), digit_char(n));
    } else {
        lemma_decimal_value(n / 10);
        lemma_digits_value_push(decimal(n / 10), digit_char(n % 10));
    }
}

/// A record written with `record_text` is read back as it was written.
pub proof fn lemma_record_round_trip(ttr: u32, payload: Seq<char>)
    ensures
        parse_record_spec(record_text(ttr, payload)) == Some((ttr, payload)),
{
    let number = decimal(ttr as nat);
    let record = record_text(ttr, payload);
    lemma_decimal_value(ttr as nat);
    let cut = number.len() as int;
    assert forall|i: int| 0 <= i < cut implies record[i] != ';' by {
        assert(record[i] == number[i]);
    }
    assert(record[cut] == ';');
    lemma_first_separator_is(record, cut);
    assert(record.take(cut) =~= number);
    assert(record.skip(cut + 1) =~= payload);
    assert(unsigned_part(number) == number);
}

/// The one-character text of a digit.
fn digit_text(d: u32) -> (t: &'static str)
    requires
        d < 10,
    ensures
        t@ == seq![digit_char(d as nat)],
{
    proof {
        reveal_strlit("0");
        reveal_strlit("1");
        reveal_strlit("2");
        reveal_strlit("3");
        reveal_strlit("4");
        reveal_strlit("5");
        reveal_strlit("6");
        reveal_strlit("7");
        reveal_strlit("8");
        reveal_strlit("9");
    }
    let t = if d == 0 {
        "0"
    } else if d == 1 {
        "1"
    } else if d == 2 {
        "2"
    } else if d == 3 {
        "3"
    } else if d == 4 {
        "4"
    } else if d == 5 {
        "5"
    } else if d == 6 {
        "6"
    } else if d == 7 {
        "7"
    } else if d == 8 {
        "8"
    } else {
        "9"
    };
    assert(t@ =~= seq![digit_char(d as nat)]);
    t
}

/// Appends the decimal text of `n` to `text`.
fn append_decimal(text: &mut String, n: u32)
    ensures
        final(text)@ == old(text)@ + decimal(n as nat),
    decreases n,
{
    if n >= 10 {
        append_decimal(text, n / 10);
    }
    text.append(digit_text(n % 10));
    assert(final(text)@ =~= old(text)@ + decimal(n as nat));
}

/// Writes the record that carries `payload` with the time-to-reserve `ttr`.
pub fn encode_record(ttr: u32, payload: &str) -> (record: String)
    ensures
        record@ == record_text(ttr, payload@),
        parse_record_spec(record@) == Some((ttr, payload@)),
{
    let mut record = String::new();
    append_decimal(&mut record, ttr);
    proof {
        reveal_strlit(";");
    }
    record.append(";");
    record.append(payload);
    proof {
        assert(record@ =~= record_text(ttr, payload@));
        lemma_record_round_trip(ttr, payload@);
    }
    record
}

/// Reads a record: the time-to-reserve before the first semicolon, and the
/// payload behind it. Gives nothing where the record has no semicolon or
/// where what stands before it is not a decimal number that fits in 32 bits.
pub fn parse_record(record: &str) -> (parsed: Option<(u32, String)>)
    ensures
        match parsed {
            Some((ttr, payload)) => parse_record_spec(record@) == Some((ttr, payload@)),
            None => parse_record_spec(record@) is None,
        },
{
    let n = record.unicode_len();
    let mut start: usize = 0;
    if n > 0 && record.get_char(0) == '+' {
        start = 1;
    }
    let mut i: usize = start;
    let mut value: u32 = 0;
    proof {
        assert(record@.subrange(start as int, i as int) =~= Seq::<char>::empty());
    }
    while i < n
        invariant
            n == record@.len(),
            start <= i <= n,
            start == 0 || start == 1,
            start == 1 <==> (n > 0 && record@[0] == '+'),
            forall|j: int| 0 <= j < i ==> record@[j] != ';',
            forall|j: int| start <= j < i ==> is_digit(record@[j]),
            value as nat == digits_value(record@.subrange(start as int, i as int)),
        decreases n - i,
    {
        let c = record.get_char(i);
        let ghost read = record@.subrange(start as int, i as int);
        if c == ';' {
            proof {
                lemma_first_separator_is(record@, i as int);
                assert(unsigned_part(record@.take(i as int)) =~= read);
            }
            if i == start {
                return None;
            }
            let payload = String::from_str(record.substring_char(i + 1, n));
            proof {
                assert(record@.skip(i as int + 1) =~= record@.subrange(i as int + 1, n as int));
            }
            return Some((value, payload));
        }
        let code = c as u32;
        let ghost longer = record@.subrange(start as int, i as int + 1);
        proof {
            assert(longer =~= read.push(c));
            lemma_digits_value_push(read, c);
        }
        if code < 48 || code > 57 || value > 429496729 || (value == 429496729 && code > 53) {
            proof {
                lemma_first_separator(record@);
                let cut = first_separator(record@);
                if cut < n {
                    assert(cut > i);
                    let body = unsigned_part(record@.take(cut));
                    assert(body =~= record@.subrange(start as int, cut));
                    if code < 48 || code > 57 {
                        assert(body[i - start] == c);
                    } else if is_number(body) {
                        assert(longer =~= body.take(longer.len() as int));
                        lemma_digits_value_grows(longer, body);
                    }
                }
            }
            return None;
        }
        value = value * 10 + (code - 48);
        i = i + 1;
    }
    proof {
        lemma_first_separator_is(record@, n as int);
    }
    None
}

/// A text of digits stands for at least as much as each of its beginnings.
proof fn lemma_digits_value_grows(head: Seq<char>, whole: Seq<char>)
    requires
        head.len() <= whole.len(),
        head =~= whole.take(head.len() as int),
        forall|j: int| 0 <= j < whole.len() ==> is_digit(#[trigger] whole[j]),
    ensures
        digits_value(head) <= digits_value(whole),
    decreases whole.len(),
{
    if head.len() < whole.len() {
        let shorter = whole.drop_last();
        assert(head =~= shorter.take(head.len() as int));
        lemma_digits_value_grows(head, shorter);
        assert(is_digit(whole.last()));
    } else {
        assert(head =~= whole);
    }
}

} // verus!
