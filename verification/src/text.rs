//! Text helpers: strings as sequences of characters.

use vstd::prelude::*;
use vstd::string::*;

verus! {

/// `String::push` appends one character to the end of the string.
pub assume_specification[ String::push ](s: &mut String, ch: char)
    ensures
        final(s)@ == old(s)@.push(ch),
;

/// The characters of a string, in order.
pub fn chars_of(s: &str) -> (chars: Vec<char>)
    ensures
        chars@ == s@,
{
    let mut chars: Vec<char> = Vec::new();
    for c in it: s.chars()
        invariant
            it.seq() == s@,
            chars@ == s@.take(it.index() as int),
    {
        chars.push(c);
        assert(chars@ =~= s@.take(it.index() + 1));
    }
    assert(s@.take(s@.len() as int) =~= s@);
    chars
}

/// The string made of the given characters, in order.
pub fn text_of(chars: &Vec<char>) -> (s: String)
    ensures
        s@ == chars@,
{
    let mut s = String::new();
    let mut i: usize = 0;
    while i < chars.len()
        invariant
            i <= chars.len(),
            s@ == chars@.take(i as int),
        decreases chars.len() - i,
    {
        s.push(chars[i]);
        assert(s@ =~= chars@.take(i + 1));
        i += 1;
    }
    assert(chars@.take(chars@.len() as int) =~= chars@);
    s
}

/// Whether two strings hold the same characters.
pub fn same_text(a: &str, b: &str) -> (same: bool)
    ensures
        same == (a@ == b@),
{
    let a_chars = chars_of(a);
    let b_chars = chars_of(b);
    if a_chars.len() != b_chars.len() {
        return false;
    }
    let mut i: usize = 0;
    while i < a_chars.len()
        invariant
            i <= a_chars.len(),
            a_chars.len() == b_chars.len(),
            a_chars@ == a@,
            b_chars@ == b@,
            a_chars@.take(i as int) == b_chars@.take(i as int),
        decreases a_chars.len() - i,
    {
        if a_chars[i] != b_chars[i] {
            return false;
        }
        assert(a_chars@.take(i + 1) =~= a_chars@.take(i as int).push(a_chars@[i as int]));
        assert(b_chars@.take(i + 1) =~= b_chars@.take(i as int).push(b_chars@[i as int]));
        i += 1;
    }
    assert(a_chars@.take(a_chars@.len() as int) =~= a_chars@);
    assert(b_chars@.take(b_chars@.len() as int) =~= b_chars@);
    true
}

/// The character of one decimal digit.
pub open spec fn digit_char(digit: nat) -> char
    recommends
        digit < 10,
{
    (48 + digit) as char
}

/// A number written in decimal, without sign or leading zeros.
pub open spec fn decimal(n: nat) -> Seq<char>
    decreases n,
{
    if n < 10 {
        seq![digit_char(n)]
    } else {
        decimal(n / 10).push(digit_char(n % 10))
    }
}

/// Appends `n`, written in decimal, to the string.
pub fn push_decimal(s: &mut String, n: u64)
    ensures
        final(s)@ == old(s)@ + decimal(n as nat),
    decreases n,
{
    if n >= 10 {
        push_decimal(s, n / 10);
    }
    let digit: u8 = (n % 10) as u8;
    s.push((48u8 + digit) as char);
    proof {
        if n >= 10 {
            assert(s@ =~= old(s)@ + decimal(n as nat));
        } else {
            assert(s@ =~= old(s)@ + decimal(n as nat));
        }
    }
}

/// `n` written in decimal.
pub fn decimal_string(n: u64) -> (s: String)
    ensures
        s@ == decimal(n as nat),
{
    let mut s = String::new();
    push_decimal(&mut s, n);
    assert(s@ =~= decimal(n as nat));
    s
}

/// The order of strings: character by character by code point, a string
/// coming before every longer string that starts with it.
pub open spec fn text_le(a: Seq<char>, b: Seq<char>) -> bool
    decreases a.len(),
{
    if a.len() == 0 {
        true
    } else if b.len() == 0 {
        false
    } else if a[0] != b[0] {
        (a[0] as u32) < (b[0] as u32)
    } else {
        text_le(a.drop_first(), b.drop_first())
    }
}

/// Of two strings, one comes before the other or they are equal.
pub proof fn lemma_text_le_total(a: Seq<char>, b: Seq<char>)
    ensures
        text_le(a, b) || text_le(b, a),
    decreases a.len(),
{
    if a.len() > 0 && b.len() > 0 {
        if a[0] == b[0] {
            lemma_text_le_total(a.drop_first(), b.drop_first());
        } else {
            vstd::utf8::char_u32_cast(a[0], a[0] as u32);
            vstd::utf8::char_u32_cast(b[0], b[0] as u32);
        }
    }
}

/// The order of strings is transitive.
pub proof fn lemma_text_le_transitive(a: Seq<char>, b: Seq<char>, c: Seq<char>)
    requires
        text_le(a, b),
        text_le(b, c),
    ensures
        text_le(a, c),
    decreases a.len(),
{
    if a.len() > 0 && b.len() > 0 && c.len() > 0 && a[0] == b[0] && b[0] == c[0] {
        lemma_text_le_transitive(a.drop_first(), b.drop_first(), c.drop_first());
    }
}

/// Every string comes no later than itself.
pub proof fn lemma_text_le_reflexive(a: Seq<char>)
    ensures
        text_le(a, a),
    decreases a.len(),
{
    if a.len() > 0 {
        lemma_text_le_reflexive(a.drop_first());
    }
}

/// Two strings that come no later than each other are the same string.
pub proof fn lemma_text_le_antisymmetric(a: Seq<char>, b: Seq<char>)
    requires
        text_le(a, b),
        text_le(b, a),
    ensures
        a == b,
    decreases a.len(),
{
    if a.len() > 0 && b.len() > 0 {
        lemma_text_le_antisymmetric(a.drop_first(), b.drop_first());
        assert(a =~= seq![a[0]] + a.drop_first());
        assert(b =~= seq![b[0]] + b.drop_first());
    } else {
        assert(a =~= b);
    }
}

/// Whether `a` comes no later than `b` in the order of strings.
pub fn string_le(a: &str, b: &str) -> (le: bool)
    ensures
        le == text_le(a@, b@),
{
    let a_chars = chars_of(a);
    let b_chars = chars_of(b);
    let mut i: usize = 0;
    assert(a@.skip(0) =~= a@);
    assert(b@.skip(0) =~= b@);
    while i < a_chars.len() && i < b_chars.len()
        invariant
            i <= a_chars.len(),
            i <= b_chars.len(),
            a_chars@ == a@,
            b_chars@ == b@,
            text_le(a@, b@) == text_le(a@.skip(i as int), b@.skip(i as int)),
        decreases a_chars.len() - i,
    {
        proof {
            assert(a@.skip(i as int).drop_first() =~= a@.skip(i + 1));
            assert(b@.skip(i as int).drop_first() =~= b@.skip(i + 1));
            assert(a@.skip(i as int)[0] == a@[i as int]);
            assert(b@.skip(i as int)[0] == b@[i as int]);
        }
        let in_a: char = a_chars[i];
        let in_b: char = b_chars[i];
        if in_a != in_b {
            return (in_a as u32) < (in_b as u32);
        }
        i += 1;
    }
    i == a_chars.len()
}

/// The strings of a list, each as its characters.
pub open spec fn texts(strings: Seq<String>) -> Seq<Seq<char>> {
    strings.map_values(|s: String| s@)
}

/// No string of the list comes before one that stands earlier in it.
pub open spec fn in_order(list: Seq<Seq<char>>) -> bool {
    forall|i: int, j: int| 0 <= i <= j < list.len()
        ==> text_le(#[trigger] list[i], #[trigger] list[j])
}

/// There is one way only to put a list of strings in order: two lists in
/// order that hold the same strings, each as often, are the same list.
pub proof fn lemma_in_order_is_unique(a: Seq<Seq<char>>, b: Seq<Seq<char>>)
    requires
        in_order(a),
        in_order(b),
        a.to_multiset() == b.to_multiset(),
    ensures
        a == b,
    decreases a.len(),
{
    broadcast use vstd::seq_lib::to_multiset_len;
    broadcast use vstd::seq_lib::to_multiset_contains;
    assert(a.len() == a.to_multiset().len());
    assert(b.len() == b.to_multiset().len());
    if a.len() == 0 {
        assert(a =~= b);
    } else {
        // Each list starts with a string that comes no later than the other's first.
        assert(a.contains(a[0]));
        assert(b.to_multiset().count(a[0]) > 0);
        assert(b.contains(a[0]));
        let in_b = choose|i: int| 0 <= i < b.len() && b[i] == a[0];
        assert(text_le(b[0], b[in_b]));
        assert(b.contains(b[0]));
        assert(a.to_multiset().count(b[0]) > 0);
        assert(a.contains(b[0]));
        let in_a = choose|i: int| 0 <= i < a.len() && a[i] == b[0];
        assert(text_le(a[0], a[in_a]));
        lemma_text_le_antisymmetric(a[0], b[0]);
        // What follows the first string is in order and holds the same strings.
        let rest_a = a.drop_first();
        let rest_b = b.drop_first();
        assert(rest_a =~= a.remove(0));
        assert(rest_b =~= b.remove(0));
        vstd::seq_lib::to_multiset_remove(a, 0);
        vstd::seq_lib::to_multiset_remove(b, 0);
        assert forall|i: int, j: int| 0 <= i <= j < rest_a.len() implies
            text_le(#[trigger] rest_a[i], #[trigger] rest_a[j]) by {
            assert(rest_a[i] == a[i + 1]);
            assert(rest_a[j] == a[j + 1]);
        }
        assert forall|i: int, j: int| 0 <= i <= j < rest_b.len() implies
            text_le(#[trigger] rest_b[i], #[trigger] rest_b[j]) by {
            assert(rest_b[i] == b[i + 1]);
            assert(rest_b[j] == b[j + 1]);
        }
        lemma_in_order_is_unique(rest_a, rest_b);
        assert(a =~= seq![a[0]] + rest_a);
        assert(b =~= seq![b[0]] + rest_b);
    }
}

/// The index of a string of `strings` that comes no later than any other.
fn index_of_least(strings: &Vec<String>) -> (least: usize)
    requires
        strings.len() > 0,
    ensures
        least < strings.len(),
        forall|j: int| 0 <= j < strings.len()
            ==> text_le(strings[least as int]@, #[trigger] strings[j]@),
{
    let mut least: usize = 0;
    let mut k: usize = 1;
    proof {
        lemma_text_le_reflexive(strings[0]@);
    }
    while k < strings.len()
        invariant
            least < k <= strings.len(),
            forall|j: int| 0 <= j < k ==> text_le(strings[least as int]@, #[trigger] strings[j]@),
        decreases strings.len() - k,
    {
        if !string_le(strings[least].as_str(), strings[k].as_str()) {
            proof {
                lemma_text_le_total(strings[least as int]@, strings[k as int]@);
                lemma_text_le_reflexive(strings[k as int]@);
                assert forall|j: int| 0 <= j < k + 1 implies
                    text_le(strings[k as int]@, #[trigger] strings[j]@) by {
                    if j < k {
                        lemma_text_le_transitive(strings[k as int]@, strings[least as int]@,
                            strings[j]@);
                    }
                }
            }
            least = k;
        }
        k += 1;
    }
    least
}

/// The same strings, sorted in the order of strings.
pub fn sort_strings(strings: Vec<String>) -> (sorted: Vec<String>)
    ensures
        in_order(texts(sorted@)),
        texts(sorted@).to_multiset() == texts(strings@).to_multiset(),
{
    let mut rest = strings;
    let mut sorted: Vec<String> = Vec::new();
    proof {
        vstd::seq_lib::to_multiset_len(texts(sorted@));
        vstd::multiset::lemma_multiset_empty_len(texts(sorted@).to_multiset());
        assert(texts(sorted@).to_multiset().add(texts(rest@).to_multiset())
            =~= texts(strings@).to_multiset());
    }
    while rest.len() > 0
        invariant
            in_order(texts(sorted@)),
            forall|i: int, j: int| 0 <= i < sorted.len() && 0 <= j < rest.len()
                ==> text_le(#[trigger] sorted[i]@, #[trigger] rest[j]@),
            texts(sorted@).to_multiset().add(texts(rest@).to_multiset())
                == texts(strings@).to_multiset(),
        decreases rest.len(),
    {
        let least = index_of_least(&rest);
        let ghost rest_before = rest@;
        let ghost sorted_before = sorted@;
        let next = rest.remove(least);
        sorted.push(next);
        proof {
            let removed = texts(rest_before)[least as int];
            assert(texts(rest@) =~= texts(rest_before).remove(least as int));
            assert(texts(sorted@) =~= texts(sorted_before).push(removed));
            vstd::seq_lib::to_multiset_remove(texts(rest_before), least as int);
            vstd::seq_lib::to_multiset_build(texts(sorted_before), removed);
            vstd::seq_lib::to_multiset_contains(texts(rest_before), removed);
            assert(texts(rest_before).contains(removed));
            assert(texts(sorted@).to_multiset().add(texts(rest@).to_multiset()) =~= texts(
                sorted_before,
            ).to_multiset().add(texts(rest_before).to_multiset()));
            assert forall|i: int, j: int| 0 <= i <= j < sorted.len() implies text_le(
                #[trigger] texts(sorted@)[i],
                #[trigger] texts(sorted@)[j],
            ) by {
                if j < sorted_before.len() {
                    assert(texts(sorted_before)[i] == texts(sorted@)[i]);
                    assert(texts(sorted_before)[j] == texts(sorted@)[j]);
                } else if i < sorted_before.len() {
                    assert(text_le(sorted_before[i]@, rest_before[least as int]@));
                } else {
                    lemma_text_le_reflexive(removed);
                }
            }
            assert forall|i: int, j: int| 0 <= i < sorted.len() && 0 <= j < rest.len() implies
                text_le(
                #[trigger] sorted[i]@,
                #[trigger] rest[j]@,
            ) by {
                let from = if j < least { j } else { j + 1 };
                assert(rest[j] == rest_before[from]);
                if i < sorted_before.len() {
                    assert(text_le(sorted_before[i]@, rest_before[from]@));
                } else {
                    assert(text_le(rest_before[least as int]@, rest_before[from]@));
                }
            }
        }
    }
    proof {
        vstd::seq_lib::to_multiset_len(texts(rest@));
        vstd::multiset::lemma_multiset_empty_len(texts(rest@).to_multiset());
        assert(texts(sorted@).to_multiset().add(texts(rest@).to_multiset())
            =~= texts(sorted@).to_multiset());
    }
    sorted
}

/// A message about one process: `before`, the pid in decimal, `after`.
pub fn message_with_pid(before: &str, pid: u32, after: &str) -> (message: String)
    ensures
        message@ == before@ + decimal(pid as nat) + after@,
{
    let mut message = before.to_owned();
    push_decimal(&mut message, pid as u64);
    message.append(after);
    message
}

/// A message that ends in a pid: `before`, then the pid in decimal.
pub fn message_for_pid(before: &str, pid: u32) -> (message: String)
    ensures
        message@ == before@ + decimal(pid as nat),
{
    let mut message = before.to_owned();
    push_decimal(&mut message, pid as u64);
    message
}

/// A number of bytes as `bytesize` writes it for people: `215 B`,
/// `104.9 MB`.
pub uninterp spec fn byte_size_text(bytes: u64) -> Seq<char>;

/// Writes a number of bytes through the `Display` of
/// `bytesize::ByteSize`. What is written is a function of the number
/// alone; no more is claimed of it.
#[verifier::external_body]
pub(crate) fn human_size(bytes: u64) -> (text: String)
    ensures
        text@ == byte_size_text(bytes),
{
    bytesize::ByteSize::b(bytes).to_string()
}

} // verus!
