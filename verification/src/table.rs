//! Comma-separated lists of numbers, as a camera writes its bitrates and frame rates.

use vstd::prelude::*;

verus! {

pub open spec fn is_digit(c: char) -> bool {
    '0' <= c <= '9'
}

pub open spec fn digit(c: char) -> nat {
    (c as nat - '0' as nat) as nat
}

/// The number that a run of decimal digits denotes.
pub open spec fn decimal(digits: Seq<char>) -> nat
    decreases digits.len(),
{
    if digits.len() == 0 {
        0
    } else {
        decimal(digits.drop_last()) * 10 + digit(digits.last())
    }
}

/// A text without the plus sign that may stand in front of a number.
pub open spec fn unsigned(text: Seq<char>) -> Seq<char> {
    if text.len() > 0 && text[0] == '+' {
        text.drop_first()
    } else {
        text
    }
}

/// The 32 bit number that a text denotes: at least one decimal digit, nothing else but an
/// optional plus sign in front, and no more than 32 bits.
pub open spec fn number(text: Seq<char>) -> Option<u32> {
    let digits = unsigned(text);
    if digits.len() > 0 && (forall|i: int| 0 <= i < digits.len() ==> is_digit(#[trigger] digits[i]))
        && decimal(digits) <= u32::MAX {
        Some(decimal(digits) as u32)
    } else {
        None
    }
}

/// The fields of a text, between its commas. A text without a comma is one field.
pub open spec fn fields(text: Seq<char>) -> Seq<Seq<char>>
    decreases text.len(),
{
    if text.len() == 0 {
        seq![seq![]]
    } else {
        let before = fields(text.drop_last());
        if text.last() == ',' {
            before.push(seq![])
        } else {
            before.drop_last().push(before.last().push(text.last()))
        }
    }
}

/// The numbers among some fields, in order. Fields that are not numbers are passed over.
pub open spec fn numbers(fs: Seq<Seq<char>>) -> Seq<u32>
    decreases fs.len(),
{
    if fs.len() == 0 {
        seq![]
    } else {
        match number(fs.last()) {
            Some(n) => numbers(fs.drop_last()).push(n),
            None => numbers(fs.drop_last()),
        }
    }
}

/// The numbers of a comma-separated list.
pub open spec fn table(text: Seq<char>) -> Seq<u32> {
    numbers(fields(text))
}

/// Longer runs of digits denote no smaller numbers.
proof fn lemma_decimal_grows(digits: Seq<char>, n: int)
    requires
        0 <= n <= digits.len(),
    ensures
        decimal(digits.take(n)) <= decimal(digits),
    decreases digits.len(),
{
    if n == digits.len() {
        assert(digits.take(n) =~= digits);
    } else {
        lemma_decimal_grows(digits.drop_last(), n);
        assert(digits.drop_last().take(n) =~= digits.take(n));
    }
}

/// The 32 bit number that a text denotes, if it denotes one.
pub fn parse_number(text: &Vec<char>) -> (r: Option<u32>)
    ensures
        r == number(text@),
{
    let first: usize = if text.len() > 0 && text[0] == '+' { 1 } else { 0 };
    let ghost digits = unsigned(text@);
    assert(digits =~= text@.skip(first as int));
    if first == text.len() {
        return None;
    }
    let mut value: u64 = 0;
    let mut i: usize = first;
    while i < text.len()
        invariant
            first <= i <= text.len(),
            first <= 1,
            digits == text@.skip(first as int),
            digits == unsigned(text@),
            forall|k: int| 0 <= k < i - first ==> is_digit(#[trigger] digits[k]),
            value == decimal(digits.take(i - first)),
            value <= u32::MAX,
        decreases text.len() - i,
    {
        let c = text[i];
        assert(c == digits[i - first]);
        if !('0' <= c && c <= '9') {
            assert(!is_digit(digits[i - first]));
            return None;
        }
        let d: u64 = c as u64 - '0' as u64;
        assert(digits.take(i + 1 - first).drop_last() =~= digits.take(i - first));
        value = value * 10 + d;
        if value > u32::MAX as u64 {
            proof {
                lemma_decimal_grows(digits, i + 1 - first);
            }
            return None;
        }
        i = i + 1;
    }
    assert(digits.take(i - first) =~= digits);
    Some(value as u32)
}

/// The numbers of a comma-separated list, in order. Entries that are not numbers of 32 bits
/// are left out.
pub fn parse_table(text: &str) -> (r: Vec<u32>)
    ensures
        r@ == table(text@),
{
    let mut out: Vec<u32> = Vec::new();
    let mut field: Vec<char> = Vec::new();
    let ghost mut done: Seq<Seq<char>> = seq![];
    assert(text@.take(0) =~= seq![]);
    for c in it: text.chars()
        invariant
            it.seq() == text@,
            fields(text@.take(it.index())) =~= done.push(field@),
            out@ == numbers(done),
    {
        proof {
            let k = it.index();
            assert(text@.take(k + 1).drop_last() =~= text@.take(k));
            assert(text@.take(k + 1).last() == c);
            assert(done.push(field@).drop_last() =~= done);
        }
        if c == ',' {
            let n = parse_number(&field);
            if let Some(n) = n {
                out.push(n);
            }
            proof {
                done = done.push(field@);
            }
            field = Vec::new();
        } else {
            field.push(c);
        }
    }
    assert(text@.take(text@.len() as int) =~= text@);
    assert(done.push(field@).drop_last() =~= done);
    let n = parse_number(&field);
    if let Some(n) = n {
        out.push(n);
    }
    out
}

/// Fields written one behind the other, with commas between them.
pub open spec fn joined(fs: Seq<Seq<char>>) -> Seq<char>
    decreases fs.len(),
{
    if fs.len() == 0 {
        seq![]
    } else if fs.len() == 1 {
        fs[0]
    } else {
        joined(fs.drop_last()).push(',') + fs.last()
    }
}

/// Splitting loses nothing: the fields of a text hold no comma, and written with commas
/// between them they are the text again.
pub proof fn law_fields_make_up_the_text(text: Seq<char>)
    ensures
        fields(text).len() > 0,
        joined(fields(text)) == text,
        forall|i: int| 0 <= i < fields(text).len() ==> !(#[trigger] fields(text)[i]).contains(','),
    decreases text.len(),
{
    let fs = fields(text);
    if text.len() > 0 {
        let before = fields(text.drop_last());
        law_fields_make_up_the_text(text.drop_last());
        if text.last() == ',' {
            assert(fs.drop_last() =~= before);
            assert(joined(fs) =~= text);
        } else {
            assert(fs.drop_last() =~= before.drop_last());
            assert(joined(fs) =~= joined(before).push(text.last()));
            assert(joined(fs) =~= text);
            assert forall|i: int| 0 <= i < fs.len() implies !(#[trigger] fs[i]).contains(',') by {
                if i < before.len() - 1 {
                    assert(fs[i] == before[i]);
                } else {
                    assert(!before.last().contains(','));
                    if fs[i].contains(',') {
                        let k = choose|k: int| 0 <= k < fs[i].len() && fs[i][k] == ',';
                        assert(before.last()[k] == ',');
                    }
                }
            }
        }
    }
}

/// A text without a comma is one field, and a comma behind a text opens the next field.
proof fn lemma_fields_append(text: Seq<char>, field: Seq<char>)
    requires
        !field.contains(','),
    ensures
        fields(text.push(',') + field) == fields(text).push(field),
        fields(field) == seq![field],
    decreases field.len(),
{
    let whole = text.push(',') + field;
    if field.len() == 0 {
        assert(whole.drop_last() =~= text);
        assert(field =~= seq![]);
        assert(fields(field) =~= seq![field]);
        assert(fields(whole) =~= fields(text).push(field));
    } else {
        let shorter = field.drop_last();
        assert(field.last() != ',') by {
            assert(field.contains(field[field.len() - 1]));
        }
        assert(!shorter.contains(',')) by {
            if shorter.contains(',') {
                let k = choose|k: int| 0 <= k < shorter.len() && shorter[k] == ',';
                assert(field[k] == ',');
            }
        }
        lemma_fields_append(text, shorter);
        assert(whole.drop_last() =~= text.push(',') + shorter);
        assert(shorter.push(field.last()) =~= field);
        assert(fields(text).push(shorter).drop_last() =~= fields(text));
        assert(fields(whole) =~= fields(text).push(field));
        assert(seq![shorter].drop_last() =~= seq![]);
        assert(fields(field) =~= seq![field]);
    }
}

/// Reading a list gives back what was written: fields without commas, written with commas
/// between them, are the fields that come out, and the table holds the numbers among them.
pub proof fn law_list_is_read_back(fs: Seq<Seq<char>>)
    requires
        fs.len() > 0,
        forall|i: int| 0 <= i < fs.len() ==> !(#[trigger] fs[i]).contains(','),
    ensures
        fields(joined(fs)) == fs,
        table(joined(fs)) == numbers(fs),
    decreases fs.len(),
{
    lemma_fields_append(seq![], fs.last());
    if fs.len() == 1 {
        assert(seq![fs[0]] =~= fs);
    } else {
        law_list_is_read_back(fs.drop_last());
        lemma_fields_append(joined(fs.drop_last()), fs.last());
        assert(fs.drop_last().push(fs.last()) =~= fs);
    }
}

/// A number is read digit by digit: one digit denotes its value, and each further digit moves what
/// was read one place up, as long as it fits in 32 bits. What has become too large stays so, and a
/// character that is no digit spoils the number for good. One plus sign in front changes nothing,
/// and a number needs a digit.
pub proof fn law_numbers_are_read_digit_by_digit(text: Seq<char>, c: char)
    ensures
        number(Seq::empty()) is None,
        number(seq!['+']) is None,
        number(seq![c]) == (if '0' <= c <= '9' {
            Some((c as u32 - 48) as u32)
        } else {
            None
        }),
        number(text) matches Some(n) ==> number(text.push(c)) == (if '0' <= c <= '9' && n * 10 + (
        c as int - 48) <= 0xFFFF_FFFF {
            Some((n * 10 + (c as int - 48)) as u32)
        } else {
            None
        }),
        number(text) is None && text.len() > 0 && text != seq!['+'] ==> number(
            text.push(c),
        ) is None,
        number(seq!['+'] + text) == (if text.len() > 0 && text[0] == '+' {
            None
        } else {
            number(text)
        }),
{
    let one = seq![c];
    assert(unsigned(seq!['+']) =~= seq![]);
    if c == '+' {
        assert(unsigned(one) =~= seq![]);
    } else {
        assert(one.drop_last() =~= seq![]);
        assert(decimal(one) == decimal(seq![]) * 10 + digit(c));
        if !('0' <= c <= '9') {
            assert(!is_digit(one[0]));
        }
    }
    assert((seq!['+'] + text).drop_first() =~= text);
    if text.len() > 0 && text[0] == '+' {
        assert(!is_digit(text[0]));
    }
    if text.len() > 0 {
        let digits = unsigned(text);
        let more = unsigned(text.push(c));
        assert(more =~= digits.push(c));
        assert(more.drop_last() =~= digits);
        if digits.len() == 0 {
            assert(text =~= seq!['+']);
        }
        assert forall|i: int| 0 <= i < digits.len() implies more[i] == digits[i] by {}
        assert(more[digits.len() as int] == c);
        if number(text) is None && text != seq!['+'] {
            if !(forall|i: int| 0 <= i < digits.len() ==> is_digit(#[trigger] digits[i])) {
                let i = choose|i: int| 0 <= i < digits.len() && !is_digit(#[trigger] digits[i]);
                assert(!is_digit(more[i]));
            }
        }
    }
}

/// A list is read entry by entry: an entry that is a number stands in the table as that number,
/// another one leaves no trace, and each comma opens a new entry behind the others.
pub proof fn law_lists_are_read_entry_by_entry(text: Seq<char>, entry: Seq<char>)
    requires
        !entry.contains(','),
    ensures
        table(entry) == (match number(entry) {
            Some(n) => seq![n],
            None => Seq::empty(),
        }),
        table(text.push(',') + entry) == table(text) + table(entry),
{
    lemma_fields_append(text, entry);
    assert(seq![entry].drop_last() =~= seq![]);
    assert(numbers(seq![entry].drop_last()) =~= seq![]);
    assert(table(entry) =~= match number(entry) {
        Some(n) => seq![n],
        None => Seq::empty(),
    });
    assert(fields(text).push(entry).drop_last() =~= fields(text));
    assert(table(text.push(',') + entry) =~= table(text) + table(entry));
}

} // verus!
