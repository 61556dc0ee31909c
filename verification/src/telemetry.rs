//! Selectors shared by the telemetry subsystems.

use vstd::prelude::*;
use vstd::string::*;

use crate::text;
use crate::text::{same_text, to_lowercase};

verus! {

/// The number of characters before the first separator.
pub open spec fn before(s: Seq<char>, separator: char) -> nat
    decreases s.len(),
{
    if s.len() == 0 || s.first() == separator {
        0
    } else {
        1 + before(s.drop_first(), separator)
    }
}

/// The pieces between separators, the empty ones included.
pub open spec fn pieces(s: Seq<char>, separator: char) -> Seq<Seq<char>>
    decreases s.len(),
{
    let n = before(s, separator);
    if n >= s.len() {
        seq![s]
    } else {
        seq![s.take(n as int)] + pieces(s.skip(n as int + 1), separator)
    }
}

/// The name that a piece stands for: trimmed and in lower case.
pub open spec fn name_of(piece: Seq<char>) -> Seq<char> {
    text::lowercase(text::trim(piece))
}

/// The names in the pieces, without the empty ones.
pub open spec fn names_in(list: Seq<Seq<char>>) -> Seq<Seq<char>>
    decreases list.len(),
{
    if list.len() == 0 {
        Seq::empty()
    } else {
        let earlier = names_in(list.drop_last());
        let name = name_of(list.last());
        if name.len() == 0 {
            earlier
        } else {
            earlier.push(name)
        }
    }
}

/// The names in a comma-separated selector.
pub open spec fn sink_names(value: Seq<char>) -> Seq<Seq<char>> {
    names_in(pieces(value, ','))
}

proof fn lemma_before(s: Seq<char>, separator: char, n: nat)
    requires
        n <= s.len(),
        forall|i: int| 0 <= i < n ==> #[trigger] s[i] != separator,
        n < s.len() ==> s[n as int] == separator,
    ensures
        before(s, separator) == n,
    decreases s.len(),
{
    if n > 0 {
        let rest = s.drop_first();
        assert forall|i: int| 0 <= i < n - 1 implies #[trigger] rest[i] != separator by {
            assert(rest[i] == s[i + 1]);
        }
        lemma_before(rest, separator, (n - 1) as nat);
    }
}

proof fn lemma_names_in_two_parts(a: Seq<Seq<char>>, b: Seq<Seq<char>>)
    ensures
        names_in(a + b) == names_in(a) + names_in(b),
    decreases b.len(),
{
    if b.len() == 0 {
        assert(a + b =~= a);
        assert(names_in(a) + names_in(b) =~= names_in(a));
    } else {
        assert((a + b).drop_last() =~= a + b.drop_last());
        lemma_names_in_two_parts(a, b.drop_last());
        assert(names_in(a + b) =~= names_in(a) + names_in(b));
    }
}

fn add_name(names: &mut Vec<String>, piece: &str)
    ensures
        text::texts(final(names)@) == text::texts(old(names)@) + names_in(seq![piece@]),
{
    let ghost earlier = text::texts(names@);
    let name = to_lowercase(piece.trim());
    proof {
        let list = seq![piece@];
        assert(list.drop_last() =~= Seq::<Seq<char>>::empty());
        assert(names_in(list.drop_last()) =~= Seq::<Seq<char>>::empty());
    }
    if !name.as_str().is_empty() {
        names.push(name);
        proof {
            assert(text::texts(names@) =~= earlier.push(name_of(piece@)));
        }
    }
    proof {
        assert(text::texts(names@) =~= earlier + names_in(seq![piece@]));
    }
}

/// Parse a comma-separated selector: each name is trimmed and put in lower case,
/// and empty names are dropped.
pub fn parse_sink_names(value: &str) -> (r: Vec<String>)
    ensures
        text::texts(r@) == sink_names(value@),
{
    let n: usize = value.unicode_len();
    let mut names: Vec<String> = Vec::new();
    let mut start: usize = 0;
    let mut i: usize = 0;
    proof {
        assert(value@.skip(0) =~= value@);
        assert(text::texts(names@) + names_in(pieces(value@, ',')) =~= sink_names(value@));
    }
    while i < n
        invariant
            n == value@.len(),
            start <= i <= n,
            forall|k: int| start <= k < i ==> #[trigger] value@[k] != ',',
            text::texts(names@) + names_in(pieces(value@.skip(start as int), ',')) == sink_names(
                value@,
            ),
        decreases n - i,
    {
        if value.get_char(i) == ',' {
            let piece = value.substring_char(start, i);
            let ghost earlier = text::texts(names@);
            let ghost rest = value@.skip(start as int);
            add_name(&mut names, piece);
            proof {
                let k = (i - start) as nat;
                assert forall|m: int| 0 <= m < k implies #[trigger] rest[m] != ',' by {
                    assert(rest[m] == value@[start + m]);
                }
                lemma_before(rest, ',', k);
                assert(rest.take(k as int) =~= piece@);
                assert(rest.skip(k as int + 1) =~= value@.skip(i + 1));
                lemma_names_in_two_parts(seq![piece@], pieces(value@.skip(i + 1), ','));
                assert(text::texts(names@) + names_in(pieces(value@.skip(i + 1), ','))
                    =~= earlier + names_in(pieces(rest, ',')));
            }
            start = i + 1;
        }
        i = i + 1;
    }
    let piece = value.substring_char(start, n);
    proof {
        let rest = value@.skip(start as int);
        assert forall|m: int| 0 <= m < rest.len() implies #[trigger] rest[m] != ',' by {
            assert(rest[m] == value@[start + m]);
        }
        lemma_before(rest, ',', rest.len());
        assert(rest =~= piece@);
        assert(pieces(rest, ',') =~= seq![piece@]);
    }
    add_name(&mut names, piece);
    names
}

/// Whether a text in lower case stands for "yes".
pub open spec fn affirmative(lowered: Seq<char>) -> bool {
    lowered == "1"@ || lowered == "true"@ || lowered == "on"@ || lowered == "yes"@
}

/// Whether a text in lower case stands for "yes": `1`, `true`, `on` or `yes`.
pub fn is_affirmative(lowered: &str) -> (r: bool)
    ensures
        r == affirmative(lowered@),
{
    same_text(lowered, "1") || same_text(lowered, "true") || same_text(lowered, "on") || same_text(
        lowered,
        "yes",
    )
}

/// Whether the value of a switch turns it on, in any case of letters.
pub fn is_truthy(value: &str) -> (r: bool)
    ensures
        r == affirmative(text::lowercase(value@)),
{
    is_affirmative(to_lowercase(value).as_str())
}

// ---------------------------------------------------------------------------
// Laws
// ---------------------------------------------------------------------------

proof fn lemma_before_bound(s: Seq<char>, separator: char)
    ensures
        before(s, separator) <= s.len(),
        forall|i: int| 0 <= i < before(s, separator) ==> #[trigger] s[i] != separator,
        before(s, separator) < s.len() ==> s[before(s, separator) as int] == separator,
    decreases s.len(),
{
    if s.len() > 0 && s.first() != separator {
        let rest = s.drop_first();
        lemma_before_bound(rest, separator);
        assert forall|i: int| 0 <= i < before(s, separator) implies #[trigger] s[i] != separator by {
            if i > 0 {
                assert(rest[i - 1] == s[i]);
            }
        }
    }
}

proof fn lemma_pieces_in_two_parts(a: Seq<char>, b: Seq<char>, separator: char)
    ensures
        pieces(a + seq![separator] + b, separator) == pieces(a, separator) + pieces(b, separator),
    decreases a.len(),
{
    let whole = a + seq![separator] + b;
    let n = before(a, separator);
    lemma_before_bound(a, separator);
    assert forall|i: int| 0 <= i < n implies #[trigger] whole[i] != separator by {
        assert(whole[i] == a[i]);
    }
    if n < a.len() {
        assert(whole[n as int] == a[n as int]);
    } else {
        assert(whole[n as int] == separator);
    }
    lemma_before(whole, separator, n);
    assert(whole.take(n as int) =~= a.take(n as int));
    if n >= a.len() {
        assert(a.take(n as int) =~= a);
        assert(whole.skip(n as int + 1) =~= b);
    } else {
        let rest = a.skip(n as int + 1);
        assert(whole.skip(n as int + 1) =~= rest + seq![separator] + b);
        lemma_pieces_in_two_parts(rest, b, separator);
        assert(pieces(whole, separator) =~= pieces(a, separator) + pieces(b, separator));
    }
}

/// A comma separates: the names in a list are those before the comma and then those
/// behind it, wherever the comma stands.
pub proof fn comma_separates_the_names(a: Seq<char>, b: Seq<char>)
    ensures
        sink_names(a + seq![','] + b) == sink_names(a) + sink_names(b),
{
    lemma_pieces_in_two_parts(a, b, ',');
    lemma_names_in_two_parts(pieces(a, ','), pieces(b, ','));
}

/// A list without a comma is one name, trimmed and in lower case, or none where nothing
/// is left of it.
pub proof fn one_name_without_a_comma(s: Seq<char>)
    requires
        forall|i: int| 0 <= i < s.len() ==> #[trigger] s[i] != ',',
    ensures
        text::lowercase(text::trim(s)).len() > 0 ==> sink_names(s) == seq![
            text::lowercase(text::trim(s)),
        ],
        text::lowercase(text::trim(s)).len() == 0 ==> sink_names(s).len() == 0,
{
    lemma_before(s, ',', s.len());
    let list = seq![s];
    assert(pieces(s, ',') =~= list);
    assert(list.drop_last() =~= Seq::<Seq<char>>::empty());
    assert(names_in(list.drop_last()) =~= Seq::<Seq<char>>::empty());
    assert(list.last() == s);
}

/// Four words stand for "yes", and no other text does.
pub proof fn four_words_mean_yes(lowered: Seq<char>)
    ensures
        affirmative("1"@) && affirmative("true"@) && affirmative("on"@) && affirmative("yes"@),
        affirmative(lowered) ==> lowered == "1"@ || lowered == "true"@ || lowered == "on"@
            || lowered == "yes"@,
{
}

/// The parsed names are those in the list, in order.
pub proof fn parsed_names_are_the_names(value: &str, r: Vec<String>, i: int)
    requires
        call_ensures(parse_sink_names, (value,), r),
    ensures
        r@.len() == sink_names(value@).len(),
        0 <= i < r@.len() ==> r@[i]@ == sink_names(value@)[i],
{
    assert(text::texts(r@).len() == r@.len());
    if 0 <= i < r@.len() {
        assert(text::texts(r@)[i] == r@[i]@);
    }
}

/// A switch is on exactly when its value says yes, in any case of letters and with
/// nothing around it.
pub proof fn switches_say_yes(value: &str, lowered: &str, on: bool, yes: bool)
    requires
        call_ensures(is_truthy, (value,), on),
        call_ensures(is_affirmative, (lowered,), yes),
    ensures
        on <==> text::lowercase(value@) == "1"@ || text::lowercase(value@) == "true"@
            || text::lowercase(value@) == "on"@ || text::lowercase(value@) == "yes"@,
        yes <==> lowered@ == "1"@ || lowered@ == "true"@ || lowered@ == "on"@ || lowered@ == "yes"@,
        lowered@ == text::lowercase(value@) ==> on == yes,
{
}

} // verus!
