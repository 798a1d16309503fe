//! Laws that hold of the resolver and of the reducer, for all inputs.

use vstd::prelude::*;
use crate::identity::{
    fresh_identity,
    label_of,
    remember,
    resolve,
    resolved_key,
    splits_at,
    ParseError,
    PLACEHOLDER,
};
use crate::markup::strip_line;
use crate::registry::{ascending, entries_map, lemma_ascending_unique, widgets_of};
use crate::reducer::{
    consults_live,
    payload_present,
    step,
    EventKind,
    Model,
    Outcome,
    WorkspaceEvent,
};
use crate::text::{
    all_digits,
    decimal,
    digit_char,
    digit_value,
    digits_value,
    is_ascii_char,
    is_digit,
    non_ascii_only,
    parse_number,
    unsigned_part,
};
use crate::visibility::LiveWorkspace;

verus! {

/// The decimal notation of a number is a non-empty string of digits that
/// denotes that number.
pub proof fn lemma_decimal_digits(n: nat)
    ensures
        decimal(n).len() > 0,
        all_digits(decimal(n)),
        digits_value(decimal(n)) == n,
    decreases n,
{
    if n < 10 {
        assert(decimal(n).drop_last() =~= Seq::<char>::empty());
        assert(digits_value(decimal(n).drop_last()) == 0);
        assert(digit_value(digit_char(n)) == n);
    } else {
        lemma_decimal_digits(n / 10);
        let d = digit_char(n % 10);
        assert(is_digit(d) && digit_value(d) == n % 10);
        assert(decimal(n).drop_last() =~= decimal(n / 10));
        assert(decimal(n).last() == d);
    }
}

/// Reading the decimal notation of a number gives the number back.
pub proof fn law_parse_decimal(n: usize)
    ensures
        parse_number(decimal(n as nat)) == Some(n),
{
    lemma_decimal_digits(n as nat);
    let s = decimal(n as nat);
    assert(is_digit(s[0]));
    assert(unsigned_part(s) == s);
}

/// A name that is the plain decimal notation of a number resolves afresh to
/// that number as its key and to the name itself as its label.
pub proof fn law_plain_number(n: usize)
    ensures
        fresh_identity(decimal(n as nat)) == Some((n, decimal(n as nat))),
{
    law_parse_decimal(n);
    lemma_decimal_digits(n as nat);
    let s = decimal(n as nat);
    assert forall|i: int| !splits_at(s, i) by {
        if 0 <= i < s.len() {
            assert(is_digit(s[i]));
        }
    }
}

/// A string that denotes a number holds no separator.
pub proof fn lemma_number_has_no_separator(s: Seq<char>)
    requires
        parse_number(s) is Some,
    ensures
        forall|i: int| 0 <= i < s.len() ==> s[i] != ';',
{
    let d = unsigned_part(s);
    assert forall|i: int| 0 <= i < s.len() implies s[i] != ';' by {
        if d.len() == s.len() {
            assert(is_digit(d[i]));
        } else if i > 0 {
            assert(d[i - 1] == s[i]);
            assert(is_digit(d[i - 1]));
        }
    }
}

/// A name made of a number, a separator and a description resolves afresh to
/// that number as its key; its label is what the description gives.
pub proof fn law_described_name(number: Seq<char>, rest: Seq<char>)
    requires
        parse_number(number) is Some,
    ensures
        fresh_identity(number + seq![';'] + rest) == Some(
            (parse_number(number)->0, label_of(rest)),
        ),
{
    let name = number + seq![';'] + rest;
    let at = number.len() as int;
    lemma_number_has_no_separator(number);
    assert(splits_at(name, at)) by {
        assert(name[at] == ';');
        assert forall|j: int| 0 <= j < at implies name[j] != ';' by {
            assert(name[j] == number[j]);
        }
    }
    let c = choose|c: int| splits_at(name, c);
    assert(c == at) by {
        if c < at {
            assert(name[c] != ';');
        } else if c > at {
            assert(name[at] != ';');
        }
    }
    assert(name.take(at) =~= number);
    assert(name.skip(at + 1) =~= rest);
}

/// Of a string within the ASCII range nothing is kept.
pub proof fn lemma_ascii_strips_to_nothing(s: Seq<char>)
    requires
        forall|i: int| 0 <= i < s.len() ==> is_ascii_char(#[trigger] s[i]),
    ensures
        non_ascii_only(s).len() == 0,
    decreases s.len(),
{
    reveal(Seq::filter);
    if s.len() > 0 {
        lemma_ascii_strips_to_nothing(s.drop_last());
    }
}

/// Where the description after the separator is pure ASCII, the label is the
/// placeholder glyph.
pub proof fn law_ascii_description(number: Seq<char>, rest: Seq<char>)
    requires
        parse_number(number) is Some,
        forall|i: int| 0 <= i < rest.len() ==> is_ascii_char(#[trigger] rest[i]),
    ensures
        fresh_identity(number + seq![';'] + rest) == Some(
            (parse_number(number)->0, seq![PLACEHOLDER]),
        ),
{
    law_described_name(number, rest);
    lemma_ascii_strips_to_nothing(rest);
}

/// Where the description holds a glyph outside the ASCII range, the label is
/// made of its glyphs and of nothing else.
pub proof fn law_glyph_label(number: Seq<char>, rest: Seq<char>)
    requires
        parse_number(number) is Some,
        non_ascii_only(rest).len() > 0,
    ensures
        fresh_identity(number + seq![';'] + rest) == Some(
            (parse_number(number)->0, non_ascii_only(rest)),
        ),
{
    law_described_name(number, rest);
}

/// The memo is written once: after an identifier has been resolved, resolving
/// it again gives the first result, whatever name comes with it, and leaves
/// the memo as it is.
pub proof fn law_write_once(
    memo: Map<usize, (usize, Seq<char>)>,
    id: usize,
    first: Seq<char>,
    second: Seq<char>,
)
    requires
        resolve(memo, id, first) is Some,
    ensures
        resolve(remember(memo, id, first), id, second) == resolve(memo, id, first),
        remember(remember(memo, id, first), id, second) == remember(memo, id, first),
{
    let after = remember(memo, id, first);
    assert(after.contains_key(id));
    assert(after.insert(id, after[id]) =~= after);
}

/// Resolving never touches what the memo holds for another identifier, nor
/// what it held before.
pub proof fn law_memo_grows(memo: Map<usize, (usize, Seq<char>)>, id: usize, name: Seq<char>)
    ensures
        forall|other: usize| #[trigger]
            memo.contains_key(other) ==> remember(memo, id, name).contains_key(other) && remember(
                memo,
                id,
                name,
            )[other] == memo[other],
{
}

/// `Empty` for a key that is not in the registry changes nothing and leaves
/// the strip clean.
pub proof fn law_empty_unknown_key(
    m: Model,
    monitor: Seq<char>,
    event: WorkspaceEvent,
    live: Seq<LiveWorkspace>,
)
    requires
        event.kind == EventKind::Empty,
        payload_present(event),
        parse_number(event.current->0.name->0@) is Some,
        !m.shown.contains_key(parse_number(event.current->0.name->0@)->0),
    ensures
        step(m, monitor, event, live) == (Outcome { model: m, result: Ok(false) }),
{
    let key = parse_number(event.current->0.name->0@)->0;
    assert(m.shown.remove(key) =~= m.shown);
}

/// `Focus` away from a workspace whose key is not in the registry neither
/// adds nor drops a key, and changes at most the widget of the workspace
/// that got the focus. If that one is not in the registry either, the
/// registry stays as it is and the strip clean.
pub proof fn law_focus_from_unknown_key(
    m: Model,
    monitor: Seq<char>,
    event: WorkspaceEvent,
    live: Seq<LiveWorkspace>,
)
    requires
        event.kind == EventKind::Focus,
        payload_present(event),
        resolve(m.memo, event.old->0.id, event.old->0.name->0@) is Some,
        !m.shown.contains_key(resolved_key(m.memo, event.old->0.id, event.old->0.name->0@)),
    ensures
        step(m, monitor, event, live).model.shown.dom() == m.shown.dom(),
        ({
            let memo = remember(m.memo, event.old->0.id, event.old->0.name->0@);
            let current = resolve(memo, event.current->0.id, event.current->0.name->0@);
            let key = resolved_key(memo, event.current->0.id, event.current->0.name->0@);
            &&& forall|k: usize|
                m.shown.contains_key(k) && !(current is Some && key == k) ==> step(
                    m,
                    monitor,
                    event,
                    live,
                ).model.shown[k] == m.shown[k]
            &&& current is Some && !m.shown.contains_key(key) ==> step(
                m,
                monitor,
                event,
                live,
            ).model.shown == m.shown && step(m, monitor, event, live).result == Ok::<bool, ParseError>(false)
        }),
{
    let memo = remember(m.memo, event.old->0.id, event.old->0.name->0@);
    let current = resolve(memo, event.current->0.id, event.current->0.name->0@);
    let key = resolved_key(memo, event.current->0.id, event.current->0.name->0@);
    let after = step(m, monitor, event, live).model.shown;
    if current is Some {
        if m.shown.contains_key(key) {
            assert(after.dom() =~= m.shown.dom());
        }
    }
}

/// `Focus` never adds a key to the registry.
pub proof fn law_focus_never_adds(
    m: Model,
    monitor: Seq<char>,
    event: WorkspaceEvent,
    live: Seq<LiveWorkspace>,
    key: usize,
)
    requires
        event.kind == EventKind::Focus,
        payload_present(event),
        step(m, monitor, event, live).model.shown.contains_key(key),
    ensures
        m.shown.contains_key(key),
{
}

/// `Init` of a workspace that resolves puts its key into the registry and
/// leaves the strip clean.
pub proof fn law_init_stays_clean(
    m: Model,
    monitor: Seq<char>,
    event: WorkspaceEvent,
    live: Seq<LiveWorkspace>,
)
    requires
        event.kind == EventKind::Init,
        payload_present(event),
        resolve(m.memo, event.current->0.id, event.current->0.name->0@) is Some,
    ensures
        step(m, monitor, event, live).result == Ok::<bool, ParseError>(false),
        step(m, monitor, event, live).model.shown.contains_key(
            resolved_key(m.memo, event.current->0.id, event.current->0.name->0@),
        ),
{
}

/// The strip is dirty only where the registry may have changed: an event
/// that leaves the strip clean and is no `Init` leaves the registry as it was.
pub proof fn law_clean_means_unchanged(
    m: Model,
    monitor: Seq<char>,
    event: WorkspaceEvent,
    live: Seq<LiveWorkspace>,
)
    requires
        event.kind != EventKind::Init,
        payload_present(event),
        step(m, monitor, event, live).result == Ok::<bool, ParseError>(false),
    ensures
        step(m, monitor, event, live).model.shown == m.shown,
{
    if event.kind == EventKind::Empty {
        let key = parse_number(event.current->0.name->0@)->0;
        assert(m.shown.remove(key) =~= m.shown);
    }
}

/// Rendering is stable under the order of insertion: two registries that
/// show the same widgets for the same keys hold them in the same order, the
/// ascending order of the keys, and render to the same line.
pub proof fn law_order_stable(a: Seq<(usize, Seq<char>)>, b: Seq<(usize, Seq<char>)>)
    requires
        ascending(a),
        ascending(b),
        entries_map(a) == entries_map(b),
    ensures
        a == b,
        strip_line(widgets_of(a)) == strip_line(widgets_of(b)),
{
    lemma_ascending_unique(a, b);
}

/// `Move` without an output changes nothing and leaves the strip clean where
/// the key is not in the registry, and drops the key and marks the strip
/// dirty where it is.
pub proof fn law_move_without_output(
    m: Model,
    monitor: Seq<char>,
    event: WorkspaceEvent,
    live: Seq<LiveWorkspace>,
)
    requires
        event.kind == EventKind::Move,
        payload_present(event),
        event.current->0.output is None,
        resolve(m.memo, event.current->0.id, event.current->0.name->0@) is Some,
    ensures
        ({
            let key = resolved_key(m.memo, event.current->0.id, event.current->0.name->0@);
            let after = step(m, monitor, event, live);
            if m.shown.contains_key(key) {
                after.model.shown == m.shown.remove(key) && after.result == Ok::<bool, ParseError>(true)
            } else {
                after.model.shown == m.shown && after.result == Ok::<bool, ParseError>(false)
            }
        }),
{
}

/// An event of a kind that the reducer does not act on changes nothing and
/// leaves the strip clean.
pub proof fn law_other_kinds_ignored(
    m: Model,
    monitor: Seq<char>,
    event: WorkspaceEvent,
    live: Seq<LiveWorkspace>,
)
    requires
        event.kind == EventKind::Other,
    ensures
        step(m, monitor, event, live) == (Outcome { model: m, result: Ok(false) }),
{
}

/// Where an event does not consult the live snapshot, its outcome is the
/// same under every snapshot.
pub proof fn law_snapshot_unused(
    m: Model,
    monitor: Seq<char>,
    event: WorkspaceEvent,
    live: Seq<LiveWorkspace>,
    other: Seq<LiveWorkspace>,
)
    requires
        payload_present(event),
        !consults_live(m, monitor, event),
    ensures
        step(m, monitor, event, live) == step(m, monitor, event, other),
{
}

/// No event makes the memo lose or change a pair that it holds.
pub proof fn law_memo_kept(
    m: Model,
    monitor: Seq<char>,
    event: WorkspaceEvent,
    live: Seq<LiveWorkspace>,
    id: usize,
)
    requires
        payload_present(event),
        m.memo.contains_key(id),
    ensures
        step(m, monitor, event, live).model.memo.contains_key(id),
        step(m, monitor, event, live).model.memo[id] == m.memo[id],
{
}

} // verus!
