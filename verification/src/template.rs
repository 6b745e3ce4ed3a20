//! URL templates with `{placeholder}` slots.

use vstd::prelude::*;

use crate::text;

verus! {

/// The slot for `key` as it stands in a template: `{key}`.
pub open spec fn slot(key: Seq<char>) -> Seq<char> {
    seq!['{'] + key + seq!['}']
}

/// A parameter as the substitution sees it: its key, and the text that takes
/// the slot's place. A parameter without a text leaves its slot as it is.
pub type Binding = (Seq<char>, Option<Seq<char>>);

/// `template` after each binding in turn has replaced its slot.
pub open spec fn substituted(template: Seq<char>, bindings: Seq<Binding>) -> Seq<char>
    decreases bindings.len(),
{
    if bindings.len() == 0 {
        template
    } else {
        let before = substituted(template, bindings.drop_last());
        match bindings.last().1 {
            Some(value) => text::replaced(before, slot(bindings.last().0), value),
            None => before,
        }
    }
}

/// A piece of a template: plain text, or the slot for a key.
pub enum Piece {
    Text(Seq<char>),
    Slot(Seq<char>),
}

pub open spec fn brace_free(s: Seq<char>) -> bool {
    forall|i: int| 0 <= i < s.len() ==> #[trigger] s[i] != '{' && s[i] != '}'
}

impl Piece {
    /// The piece as it stands in a template.
    pub open spec fn source(self) -> Seq<char> {
        match self {
            Piece::Text(t) => t,
            Piece::Slot(k) => slot(k),
        }
    }
}

/// The two texts agree as far as both go.
pub open spec fn agree(a: Seq<char>, b: Seq<char>) -> bool {
    forall|i: int| 0 <= i < a.len() && i < b.len() ==> #[trigger] a[i] == b[i]
}

/// With the right text behind it, a slot for `key` could begin in `t`. Without an
/// opening brace in `t` it cannot; with one it can only if what follows the brace fits
/// the key.
pub open spec fn could_begin_slot(t: Seq<char>, key: Seq<char>) -> bool {
    exists|i: int| 0 <= i < t.len() && agree(#[trigger] t.skip(i), slot(key))
}

/// Whatever stands behind `t`, no slot that the bindings have a text for begins in it.
pub open spec fn is_plain(t: Seq<char>, bindings: Seq<Binding>) -> bool {
    forall|i: int|
        0 <= i < bindings.len() && (#[trigger] bindings[i]).1 is Some ==> !could_begin_slot(
            t,
            bindings[i].0,
        )
}

/// No slot that the bindings have a text for begins in the template's plain text. Stray
/// braces may stand there that cannot begin one.
pub open spec fn plain_pieces(pieces: Seq<Piece>, bindings: Seq<Binding>) -> bool {
    forall|i: int|
        0 <= i < pieces.len() ==> match #[trigger] pieces[i] {
            Piece::Text(t) => is_plain(t, bindings),
            Piece::Slot(k) => brace_free(k),
        }
}

/// The template that the pieces make up.
pub open spec fn source_of(pieces: Seq<Piece>) -> Seq<char>
    decreases pieces.len(),
{
    if pieces.len() == 0 {
        Seq::empty()
    } else {
        pieces[0].source() + source_of(pieces.skip(1))
    }
}

/// Each key is bound once.
pub open spec fn distinct_keys(bindings: Seq<Binding>) -> bool {
    forall|i: int, j: int|
        0 <= i < j < bindings.len() ==> (#[trigger] bindings[i]).0 != (#[trigger] bindings[j]).0
}

/// The keys that have a text hold no brace, and no slot that has a text begins in a
/// text.
pub open spec fn plain_bindings(bindings: Seq<Binding>) -> bool {
    forall|i: int|
        0 <= i < bindings.len() && (#[trigger] bindings[i]).1 is Some ==> brace_free(bindings[i].0)
            && is_plain(bindings[i].1->0, bindings)
}

/// The text that the bindings give `key`.
pub open spec fn bound_text(bindings: Seq<Binding>, key: Seq<char>) -> Option<Seq<char>> {
    if exists|value: Seq<char>| #[trigger] bindings.contains((key, Some(value))) {
        Some(choose|value: Seq<char>| #[trigger] bindings.contains((key, Some(value))))
    } else {
        None
    }
}

/// The piece with its slot filled in, if the bindings give it a text.
pub open spec fn filled(piece: Piece, bindings: Seq<Binding>) -> Piece {
    match piece {
        Piece::Text(t) => Piece::Text(t),
        Piece::Slot(k) => match bound_text(bindings, k) {
            Some(value) => Piece::Text(value),
            None => Piece::Slot(k),
        },
    }
}

/// All pieces with their slots filled in.
pub open spec fn all_filled(pieces: Seq<Piece>, bindings: Seq<Binding>) -> Seq<Piece> {
    pieces.map_values(|piece: Piece| filled(piece, bindings))
}

/// A slot for `key` stands in the template only where a piece is that slot: it begins
/// neither in plain text nor in another slot.
pub open spec fn is_clear(pieces: Seq<Piece>, key: Seq<char>) -> bool {
    forall|i: int, at: int|
        0 <= i < pieces.len() && pieces[i] != Piece::Slot(key) && 0 <= at < pieces[i].source().len()
            ==> !(#[trigger] text::stands_at(source_of(pieces.skip(i)), slot(key), at))
}

/// While the bindings are substituted one after the other, no slot stands in the
/// template by chance when its turn comes.
pub open spec fn stays_clear(pieces: Seq<Piece>, bindings: Seq<Binding>) -> bool {
    forall|n: int|
        0 <= n < bindings.len() && bindings[n].1 is Some ==> is_clear(
            #[trigger] all_filled(pieces, bindings.take(n)),
            bindings[n].0,
        )
}

/// Text in which the pattern doesn't begin is passed over.
proof fn lemma_replaced_passes(front: Seq<char>, rest: Seq<char>, pat: Seq<char>, to: Seq<char>)
    requires
        pat.len() > 0,
        forall|at: int| 0 <= at < front.len() ==> !(#[trigger] text::stands_at(front + rest, pat, at)),
    ensures
        text::replaced(front + rest, pat, to) == front + text::replaced(rest, pat, to),
    decreases front.len(),
{
    if front.len() == 0 {
        assert(front + rest =~= rest);
        assert(front + text::replaced(rest, pat, to) =~= text::replaced(rest, pat, to));
    } else {
        let whole = front + rest;
        let behind = front.skip(1);
        assert(whole.skip(1) =~= behind + rest);
        assert forall|at: int| 0 <= at < behind.len() implies !(#[trigger] text::stands_at(
            behind + rest,
            pat,
            at,
        )) by {
            if text::stands_at(behind + rest, pat, at) {
                assert(whole.subrange(at + 1, at + 1 + pat.len()) =~= (behind + rest).subrange(
                    at,
                    at + pat.len(),
                ));
                assert(text::stands_at(whole, pat, at + 1));
            }
        }
        lemma_replaced_passes(behind, rest, pat, to);
        assert(seq![front[0]] + (behind + text::replaced(rest, pat, to)) =~= front + text::replaced(
            rest,
            pat,
            to,
        ));
        assert(whole[0] == front[0]);
        if whole.len() >= pat.len() {
            assert(whole.take(pat.len() as int) =~= whole.subrange(0, pat.len() as int));
            assert(!text::stands_at(whole, pat, 0));
        } else {
            assert(text::replaced(rest, pat, to) == rest);
        }
    }
}

/// The slot itself is replaced.
proof fn lemma_replaced_takes_slot(rest: Seq<char>, key: Seq<char>, to: Seq<char>)
    ensures
        text::replaced(slot(key) + rest, slot(key), to) == to + text::replaced(rest, slot(key), to),
{
    let pat = slot(key);
    assert((pat + rest).take(pat.len() as int) =~= pat);
    assert((pat + rest).skip(pat.len() as int) =~= rest);
}

spec fn with_slot_filled(piece: Piece, key: Seq<char>, to: Seq<char>) -> Piece {
    if piece == Piece::Slot(key) {
        Piece::Text(to)
    } else {
        piece
    }
}

/// Replacing a slot in the template is replacing it piece by piece.
proof fn lemma_replaced_in_pieces(pieces: Seq<Piece>, key: Seq<char>, to: Seq<char>)
    requires
        is_clear(pieces, key),
    ensures
        text::replaced(source_of(pieces), slot(key), to) == source_of(
            pieces.map_values(|piece: Piece| with_slot_filled(piece, key, to)),
        ),
    decreases pieces.len(),
{
    let f = |piece: Piece| with_slot_filled(piece, key, to);
    if pieces.len() > 0 {
        let rest = pieces.skip(1);
        assert forall|i: int, at: int|
            0 <= i < rest.len() && rest[i] != Piece::Slot(key) && 0 <= at
                < rest[i].source().len() implies !(#[trigger] text::stands_at(
            source_of(rest.skip(i)),
            slot(key),
            at,
        )) by {
            assert(rest[i] == pieces[i + 1]);
            assert(rest.skip(i) =~= pieces.skip(i + 1));
            assert(!text::stands_at(source_of(pieces.skip(i + 1)), slot(key), at));
        }
        lemma_replaced_in_pieces(rest, key, to);
        assert(pieces.map_values(f).skip(1) =~= rest.map_values(f));
        assert(pieces.map_values(f)[0] == f(pieces[0]));
        if pieces[0] == Piece::Slot(key) {
            lemma_replaced_takes_slot(source_of(rest), key, to);
        } else {
            let front = pieces[0].source();
            assert(pieces.skip(0) =~= pieces);
            assert forall|at: int| 0 <= at < front.len() implies !(#[trigger] text::stands_at(
                front + source_of(rest),
                slot(key),
                at,
            )) by {
                assert(!text::stands_at(source_of(pieces.skip(0)), slot(key), at));
            }
            lemma_replaced_passes(front, source_of(rest), slot(key), to);
        }
    }
}

/// A key that is bound to a text has that text.
pub proof fn lemma_bound_text_unique(bindings: Seq<Binding>, key: Seq<char>, value: Seq<char>)
    requires
        distinct_keys(bindings),
        bindings.contains((key, Some(value))),
    ensures
        bound_text(bindings, key) == Some(value),
{
    let found = choose|v: Seq<char>| #[trigger] bindings.contains((key, Some(v)));
    let i = choose|i: int| 0 <= i < bindings.len() && bindings[i] == (key, Some(value));
    let j = choose|j: int| 0 <= j < bindings.len() && bindings[j] == (key, Some(found));
    if i < j {
        assert(bindings[i].0 != bindings[j].0);
    } else if j < i {
        assert(bindings[j].0 != bindings[i].0);
    }
}

/// What one more binding does to a piece.
proof fn lemma_filled_step(piece: Piece, bindings: Seq<Binding>)
    requires
        bindings.len() > 0,
        distinct_keys(bindings),
    ensures
        filled(piece, bindings) == match bindings.last().1 {
            Some(value) => with_slot_filled(
                filled(piece, bindings.drop_last()),
                bindings.last().0,
                value,
            ),
            None => filled(piece, bindings.drop_last()),
        },
{
    let before = bindings.drop_last();
    let last = bindings.last();
    assert(distinct_keys(before)) by {
        assert forall|i: int, j: int| 0 <= i < j < before.len() implies (#[trigger] before[i]).0 != (
        #[trigger] before[j]).0 by {
            assert(bindings[i].0 != bindings[j].0);
        }
    }
    if let Piece::Slot(k) = piece {
        if let Some(value) = bound_text(before, k) {
            let i = choose|i: int| 0 <= i < before.len() && before[i] == (k, Some(value));
            assert(bindings[i] == (k, Some(value)));
            assert(bindings.contains((k, Some(value))));
            lemma_bound_text_unique(bindings, k, value);
        } else if last.0 == k && last.1 is Some {
            assert(bindings[bindings.len() - 1] == (k, last.1));
            assert(bindings.contains((k, Some(last.1->0))));
            lemma_bound_text_unique(bindings, k, last.1->0);
        } else {
            assert forall|v: Seq<char>| !(#[trigger] bindings.contains((k, Some(v)))) by {
                if bindings.contains((k, Some(v))) {
                    let i = choose|i: int| 0 <= i < bindings.len() && bindings[i] == (k, Some(v));
                    if i < before.len() {
                        assert(before[i] == (k, Some(v)));
                        assert(before.contains((k, Some(v))));
                    }
                }
            }
        }
    }
}

/// Where no slot stands in the template by chance, substituting one text after the
/// other fills each slot with the text bound to its key, and leaves everything else,
/// stray braces and the slots without a text among it, as it stands.
pub proof fn law_substitution_fills_slots(pieces: Seq<Piece>, bindings: Seq<Binding>)
    requires
        distinct_keys(bindings),
        stays_clear(pieces, bindings),
    ensures
        substituted(source_of(pieces), bindings) == source_of(all_filled(pieces, bindings)),
    decreases bindings.len(),
{
    let after = all_filled(pieces, bindings);
    if bindings.len() == 0 {
        assert forall|piece: Piece| #[trigger] filled(piece, bindings) == piece by {
            if let Piece::Slot(k) = piece {
                assert forall|v: Seq<char>| !(#[trigger] bindings.contains((k, Some(v)))) by {}
            }
        }
        assert(after =~= pieces);
    } else {
        let before = bindings.drop_last();
        let last = bindings.last();
        let end = bindings.len() - 1;
        assert forall|i: int, j: int| 0 <= i < j < before.len() implies (#[trigger] before[i]).0 != (
        #[trigger] before[j]).0 by {
            assert(bindings[i].0 != bindings[j].0);
        }
        assert forall|n: int| 0 <= n < before.len() && before[n].1 is Some implies is_clear(
            #[trigger] all_filled(pieces, before.take(n)),
            before[n].0,
        ) by {
            assert(before.take(n) =~= bindings.take(n));
            assert(is_clear(all_filled(pieces, bindings.take(n)), bindings[n].0));
        }
        law_substitution_fills_slots(pieces, before);
        let prior = all_filled(pieces, before);
        assert(before =~= bindings.take(end));
        match last.1 {
            Some(value) => {
                let f = |piece: Piece| with_slot_filled(piece, last.0, value);
                assert(is_clear(all_filled(pieces, bindings.take(end)), bindings[end].0));
                lemma_replaced_in_pieces(prior, last.0, value);
                assert forall|i: int| 0 <= i < pieces.len() implies #[trigger] after[i] == f(prior[i]) by {
                    lemma_filled_step(pieces[i], bindings);
                }
                assert(after =~= prior.map_values(f));
            },
            None => {
                assert forall|i: int| 0 <= i < pieces.len() implies #[trigger] after[i] == prior[i] by {
                    lemma_filled_step(pieces[i], bindings);
                }
                assert(after =~= prior);
            },
        }
    }
}

/// Where no slot stands in the template by chance, in the one order or in the other,
/// the order of the bindings makes no difference.
pub proof fn law_substitution_order(pieces: Seq<Piece>, first: Seq<Binding>, second: Seq<Binding>)
    requires
        distinct_keys(first),
        distinct_keys(second),
        stays_clear(pieces, first),
        stays_clear(pieces, second),
        forall|b: Binding| #[trigger] first.contains(b) <==> second.contains(b),
    ensures
        substituted(source_of(pieces), first) == substituted(source_of(pieces), second),
{
    law_substitution_fills_slots(pieces, first);
    law_substitution_fills_slots(pieces, second);
    assert forall|piece: Piece| #[trigger] filled(piece, first) == filled(piece, second) by {
        if let Piece::Slot(k) = piece {
            if let Some(value) = bound_text(first, k) {
                assert(first.contains((k, Some(value))));
                lemma_bound_text_unique(second, k, value);
            } else {
                assert forall|v: Seq<char>| !(#[trigger] second.contains((k, Some(v)))) by {
                    assert(!first.contains((k, Some(v))));
                }
            }
        }
    }
    assert(all_filled(pieces, first) =~= all_filled(pieces, second));
}

/// A text without an opening brace is plain.
pub proof fn law_slots_begin_with_a_brace(t: Seq<char>, bindings: Seq<Binding>)
    requires
        !t.contains('{'),
    ensures
        is_plain(t, bindings),
{
    assert forall|i: int|
        0 <= i < bindings.len() && (#[trigger] bindings[i]).1 is Some implies !could_begin_slot(
        t,
        bindings[i].0,
    ) by {
        let pat = slot(bindings[i].0);
        assert forall|k: int| 0 <= k < t.len() implies !agree(#[trigger] t.skip(k), pat) by {
            assert(t.skip(k)[0] == t[k]);
            assert(pat[0] == '{');
        }
    }
}

/// What takes the place of a slot is plain.
proof fn lemma_filled_is_plain(piece: Piece, some: Seq<Binding>, bindings: Seq<Binding>)
    requires
        match piece {
            Piece::Text(t) => is_plain(t, bindings),
            Piece::Slot(k) => brace_free(k),
        },
        plain_bindings(bindings),
        forall|i: int| 0 <= i < some.len() ==> bindings.contains(#[trigger] some[i]),
    ensures
        match filled(piece, some) {
            Piece::Text(t) => is_plain(t, bindings),
            Piece::Slot(k) => brace_free(k),
        },
{
    if let Piece::Slot(k) = piece {
        if let Some(value) = bound_text(some, k) {
            let i = choose|i: int| 0 <= i < some.len() && some[i] == (k, Some(value));
            assert(bindings.contains(some[i]));
            let j = choose|j: int| 0 <= j < bindings.len() && bindings[j] == some[i];
            assert(is_plain(bindings[j].1->0, bindings));
        }
    }
}

/// No slot begins in another one.
proof fn lemma_slots_do_not_overlap(other: Seq<char>, behind: Seq<char>, key: Seq<char>, at: int)
    requires
        brace_free(other),
        brace_free(key),
        other != key,
        0 <= at < slot(other).len(),
    ensures
        !text::stands_at(slot(other) + behind, slot(key), at),
{
    let pat = slot(key);
    let whole = slot(other) + behind;
    if text::stands_at(whole, pat, at) {
        let here = whole.subrange(at, at + pat.len());
        assert(here[0] == whole[at]);
        if at > 0 {
            if at <= other.len() {
                assert(whole[at] == other[at - 1]);
            }
        } else if other.len() < key.len() {
            assert(here[other.len() as int + 1] == '}');
            assert(pat[other.len() as int + 1] == key[other.len() as int]);
        } else if other.len() > key.len() {
            assert(here[key.len() as int + 1] == other[key.len() as int]);
            assert(pat[key.len() as int + 1] == '}');
        } else {
            assert forall|i: int| 0 <= i < key.len() implies other[i] == key[i] by {
                assert(here[i + 1] == other[i]);
                assert(pat[i + 1] == key[i]);
            }
            assert(other =~= key);
        }
    }
}

/// Where the plain text and the texts that are put in are plain, and no key holds a
/// brace, no slot ever stands in the template by chance.
pub proof fn law_plain_template_stays_clear(pieces: Seq<Piece>, bindings: Seq<Binding>)
    requires
        plain_pieces(pieces, bindings),
        plain_bindings(bindings),
    ensures
        stays_clear(pieces, bindings),
{
    assert forall|n: int| 0 <= n < bindings.len() && bindings[n].1 is Some implies is_clear(
        #[trigger] all_filled(pieces, bindings.take(n)),
        bindings[n].0,
    ) by {
        let key = bindings[n].0;
        let some = bindings.take(n);
        let stage = all_filled(pieces, some);
        assert forall|i: int| 0 <= i < some.len() implies bindings.contains(#[trigger] some[i]) by {
            assert(some[i] == bindings[i]);
        }
        assert forall|i: int, at: int|
            0 <= i < stage.len() && stage[i] != Piece::Slot(key) && 0 <= at
                < stage[i].source().len() implies !(#[trigger] text::stands_at(
            source_of(stage.skip(i)),
            slot(key),
            at,
        )) by {
            lemma_filled_is_plain(pieces[i], some, bindings);
            let behind = source_of(stage.skip(i).skip(1));
            let whole = source_of(stage.skip(i));
            assert(stage.skip(i)[0] == stage[i]);
            assert(whole == stage[i].source() + behind);
            match stage[i] {
                Piece::Text(t) => {
                    assert(!could_begin_slot(t, key));
                    if text::stands_at(whole, slot(key), at) {
                        let here = whole.subrange(at, at + slot(key).len());
                        assert forall|j: int|
                            0 <= j < t.skip(at).len() && j < slot(key).len() implies #[trigger] t.skip(
                            at,
                        )[j] == slot(key)[j] by {
                            assert(here[j] == whole[at + j]);
                        }
                        assert(agree(t.skip(at), slot(key)));
                    }
                },
                Piece::Slot(k) => {
                    lemma_slots_do_not_overlap(k, behind, key, at);
                },
            }
        }
    }
}

/// The slot for a key is the key between an opening and a closing brace.
pub proof fn law_slot_is_the_key_in_braces(key: Seq<char>)
    ensures
        slot(key).len() == key.len() + 2,
        slot(key)[0] == '{',
        slot(key).last() == '}',
        slot(key).subrange(1, key.len() as int + 1) == key,
{
    assert(slot(key).subrange(1, key.len() as int + 1) =~= key);
}

/// Whatever the template, a binding with a text replaces its slot in what the bindings
/// before it have made, and one without a text changes nothing.
pub proof fn law_substitution_goes_binding_by_binding(
    template: Seq<char>,
    bindings: Seq<Binding>,
    key: Seq<char>,
    value: Seq<char>,
)
    ensures
        substituted(template, Seq::empty()) == template,
        substituted(template, bindings.push((key, None))) == substituted(template, bindings),
        substituted(template, bindings.push((key, Some(value)))) == text::replaced(
            substituted(template, bindings),
            seq!['{'] + key + seq!['}'],
            value,
        ),
{
    assert(bindings.push((key, None::<Seq<char>>)).drop_last() =~= bindings);
    assert(bindings.push((key, Some(value))).drop_last() =~= bindings);
}

/// A template in which no slot of the bindings occurs stays as it is.
pub proof fn law_template_without_slots_stays(template: Seq<char>, bindings: Seq<Binding>)
    requires
        forall|i: int|
            0 <= i < bindings.len() ==> !text::occurs(
                template,
                seq!['{'] + (#[trigger] bindings[i]).0 + seq!['}'],
            ),
    ensures
        substituted(template, bindings) == template,
    decreases bindings.len(),
{
    if bindings.len() > 0 {
        let before = bindings.drop_last();
        assert forall|i: int| 0 <= i < before.len() implies !text::occurs(
            template,
            seq!['{'] + (#[trigger] before[i]).0 + seq!['}'],
        ) by {
            assert(before[i] == bindings[i]);
        }
        law_template_without_slots_stays(template, before);
        let last = bindings[bindings.len() - 1];
        if let Some(value) = last.1 {
            text::law_replacing_nothing_changes_nothing(template, slot(last.0), value);
        }
    }
}

} // verus!
