//! A fixed order on overrides by what they say.
//!
//! Two equally specific overrides are told apart by their contents alone, so that the order in
//! which a list holds them never decides which one answers.

use vstd::prelude::*;

use crate::core_domain::overrides::EchoSpan;
use crate::core_domain::overrides::OverrideAction;
use crate::core_domain::overrides::ResponseOverride;
use crate::order::in_order;
use crate::order::lemma_in_order_is_antisymmetric;
use crate::order::lemma_in_order_is_total;
use crate::order::lemma_in_order_is_transitive;
use crate::order::lemma_text_from_numbers;
use crate::order::text_numbers;
use crate::text::Characters;

verus! {

/// What an override does, as a mathematical value.
pub ghost enum ActionView {
    Substitute { response: Seq<u8>, spans: Seq<EchoSpan> },
    Suppress,
}

/// An override as a mathematical value.
pub ghost struct OverrideView {
    pub pattern: Seq<u8>,
    pub mask: Seq<u8>,
    pub match_trailing: bool,
    pub action: ActionView,
    pub enabled: bool,
    pub even_if_suppressed: bool,
    pub note: Seq<char>,
}

/// What an override does, as a mathematical value.
pub open spec fn action_view(action: OverrideAction) -> ActionView {
    match action {
        OverrideAction::Suppress => ActionView::Suppress,
        OverrideAction::Substitute { m_vecResponse, m_vecEchoSpans } => ActionView::Substitute {
            response: m_vecResponse@,
            spans: m_vecEchoSpans@,
        },
    }
}

/// An override as a mathematical value.
pub open spec fn override_view(rule: ResponseOverride) -> OverrideView {
    OverrideView {
        pattern: rule.m_vecRequestPattern@,
        mask: rule.m_vecRequestMask@,
        match_trailing: rule.m_bMatchTrailingBytes,
        action: action_view(rule.m_action),
        enabled: rule.m_bIsEnabled,
        even_if_suppressed: rule.m_bRespondEvenIfSuppressed,
        note: rule.m_strNote@,
    }
}

/// A list of numbers, led by how many there are.
pub open spec fn counted(numbers: Seq<nat>) -> Seq<nat> {
    seq![numbers.len()] + numbers
}

/// A list of bytes as numbers.
pub open spec fn byte_numbers(bytes: Seq<u8>) -> Seq<nat> {
    bytes.map_values(|b: u8| b as nat)
}

/// A flag as a number.
pub open spec fn flag_number(flag: bool) -> nat {
    if flag {
        1
    } else {
        0
    }
}

/// What an override does, as numbers: silence ranks lowest, then the response bytes decide, then
/// the echo spans.
pub open spec fn action_numbers(action: ActionView) -> Seq<nat> {
    match action {
        ActionView::Suppress => seq![0nat],
        ActionView::Substitute { response, spans } => seq![1nat] + (counted(byte_numbers(response))
            + (counted(spans.map_values(|span: EchoSpan| span.m_uRequestOffset as nat)) + (counted(
            spans.map_values(|span: EchoSpan| span.m_uLength as nat),
        ) + counted(spans.map_values(|span: EchoSpan| span.m_uResponseOffset as nat))))),
    }
}

/// What an override says, as numbers: the pattern decides first, then the mask, whether it is a
/// prefix, what it does, the two remaining flags and the note.
pub open spec fn override_numbers(rule: OverrideView) -> Seq<nat> {
    counted(byte_numbers(rule.pattern)) + (counted(byte_numbers(rule.mask)) + (seq![
        flag_number(rule.match_trailing),
    ] + (action_numbers(rule.action) + (seq![
        flag_number(rule.enabled),
        flag_number(rule.even_if_suppressed),
    ] + counted(text_numbers(rule.note))))))
}

/// An override comes at or before another one in the order of what they say.
pub open spec fn says_at_most(a: OverrideView, b: OverrideView) -> bool {
    in_order(override_numbers(a), override_numbers(b))
}

proof fn lemma_counted_splits(a: Seq<nat>, x: Seq<nat>, b: Seq<nat>, y: Seq<nat>)
    requires
        counted(a) + x == counted(b) + y,
    ensures
        a == b,
        x == y,
{
    let left = counted(a) + x;
    let right = counted(b) + y;
    assert(left[0] == a.len() && right[0] == b.len());
    assert(left.subrange(1, 1 + a.len() as int) =~= a);
    assert(right.subrange(1, 1 + b.len() as int) =~= b);
    assert(left.skip(1 + a.len() as int) =~= x);
    assert(right.skip(1 + b.len() as int) =~= y);
}

proof fn lemma_bytes_from_numbers(a: Seq<u8>, b: Seq<u8>)
    requires
        byte_numbers(a) == byte_numbers(b),
    ensures
        a == b,
{
    assert(byte_numbers(a).len() == a.len() && byte_numbers(b).len() == b.len());
    assert forall|i: int| 0 <= i < a.len() implies a[i] == b[i] by {
        assert(byte_numbers(a)[i] == a[i] as nat && byte_numbers(b)[i] == b[i] as nat);
    }
    assert(a =~= b);
}

proof fn lemma_action_splits(a: ActionView, x: Seq<nat>, b: ActionView, y: Seq<nat>)
    requires
        action_numbers(a) + x == action_numbers(b) + y,
    ensures
        a == b,
        x == y,
{
    let left = action_numbers(a) + x;
    let right = action_numbers(b) + y;
    assert(left[0] == action_numbers(a)[0] && right[0] == action_numbers(b)[0]);
    match (a, b) {
        (ActionView::Suppress, ActionView::Suppress) => {
            assert(left.skip(1) =~= x);
            assert(right.skip(1) =~= y);
        },
        (
            ActionView::Substitute { response: ra, spans: sa },
            ActionView::Substitute { response: rb, spans: sb },
        ) => {
            let fa = sa.map_values(|span: EchoSpan| span.m_uRequestOffset as nat);
            let fb = sb.map_values(|span: EchoSpan| span.m_uRequestOffset as nat);
            let la = sa.map_values(|span: EchoSpan| span.m_uLength as nat);
            let lb = sb.map_values(|span: EchoSpan| span.m_uLength as nat);
            let ta = sa.map_values(|span: EchoSpan| span.m_uResponseOffset as nat);
            let tb = sb.map_values(|span: EchoSpan| span.m_uResponseOffset as nat);
            let ya = counted(la) + (counted(ta) + x);
            let yb = counted(lb) + (counted(tb) + y);
            let za = counted(fa) + ya;
            let zb = counted(fb) + yb;
            assert(left.skip(1) =~= counted(byte_numbers(ra)) + za);
            assert(right.skip(1) =~= counted(byte_numbers(rb)) + zb);
            lemma_counted_splits(byte_numbers(ra), za, byte_numbers(rb), zb);
            lemma_bytes_from_numbers(ra, rb);
            lemma_counted_splits(fa, ya, fb, yb);
            lemma_counted_splits(la, counted(ta) + x, lb, counted(tb) + y);
            lemma_counted_splits(ta, x, tb, y);
            assert(fa.len() == sa.len() && fb.len() == sb.len());
            assert forall|i: int| 0 <= i < sa.len() implies sa[i] == sb[i] by {
                assert(fa[i] == sa[i].m_uRequestOffset && fb[i] == sb[i].m_uRequestOffset);
                assert(la[i] == sa[i].m_uLength && lb[i] == sb[i].m_uLength);
                assert(ta[i] == sa[i].m_uResponseOffset && tb[i] == sb[i].m_uResponseOffset);
            }
            assert(sa =~= sb);
        },
        _ => {},
    }
}

proof fn lemma_numbers_tell_overrides_apart(a: OverrideView, b: OverrideView)
    requires
        override_numbers(a) == override_numbers(b),
    ensures
        a == b,
{
    let na = seq![flag_number(a.enabled), flag_number(a.even_if_suppressed)] + counted(
        text_numbers(a.note),
    );
    let nb = seq![flag_number(b.enabled), flag_number(b.even_if_suppressed)] + counted(
        text_numbers(b.note),
    );
    let ta = seq![flag_number(a.match_trailing)] + (action_numbers(a.action) + na);
    let tb = seq![flag_number(b.match_trailing)] + (action_numbers(b.action) + nb);
    let ma = counted(byte_numbers(a.mask)) + ta;
    let mb = counted(byte_numbers(b.mask)) + tb;
    lemma_counted_splits(byte_numbers(a.pattern), ma, byte_numbers(b.pattern), mb);
    lemma_bytes_from_numbers(a.pattern, b.pattern);
    lemma_counted_splits(byte_numbers(a.mask), ta, byte_numbers(b.mask), tb);
    lemma_bytes_from_numbers(a.mask, b.mask);
    assert(ta[0] == flag_number(a.match_trailing) && tb[0] == flag_number(b.match_trailing));
    assert(ta.skip(1) =~= action_numbers(a.action) + na);
    assert(tb.skip(1) =~= action_numbers(b.action) + nb);
    lemma_action_splits(a.action, na, b.action, nb);
    assert(na[0] == flag_number(a.enabled) && nb[0] == flag_number(b.enabled));
    assert(na[1] == flag_number(a.even_if_suppressed) && nb[1] == flag_number(
        b.even_if_suppressed,
    ));
    assert(na.skip(2) =~= counted(text_numbers(a.note)) + seq![]);
    assert(nb.skip(2) =~= counted(text_numbers(b.note)) + seq![]);
    lemma_counted_splits(text_numbers(a.note), seq![], text_numbers(b.note), seq![]);
    lemma_text_from_numbers(a.note, b.note);
}

/// Of two overrides one comes at or before the other, and each does only where they say the same.
pub proof fn law_overrides_are_fully_ordered(a: OverrideView, b: OverrideView)
    ensures
        says_at_most(a, b) || says_at_most(b, a),
        says_at_most(a, b) && says_at_most(b, a) <==> a == b,
{
    let na = override_numbers(a);
    let nb = override_numbers(b);
    lemma_in_order_is_total(na, nb);
    if says_at_most(a, b) && says_at_most(b, a) {
        lemma_in_order_is_antisymmetric(na, nb);
        lemma_numbers_tell_overrides_apart(a, b);
    }
}

/// The order of overrides is transitive.
pub proof fn law_the_order_of_overrides_is_transitive(
    a: OverrideView,
    b: OverrideView,
    c: OverrideView,
)
    requires
        says_at_most(a, b),
        says_at_most(b, c),
    ensures
        says_at_most(a, c),
{
    lemma_in_order_is_transitive(override_numbers(a), override_numbers(b), override_numbers(c));
}

/// A list of machine numbers as numbers.
spec fn numbers(values: Seq<u64>) -> Seq<nat> {
    values.map_values(|value: u64| value as nat)
}

/// Appends one number.
fn PushNumber(vecNumbers: &mut Vec<u64>, u64Value: u64)
    ensures
        numbers(final(vecNumbers)@) == numbers(old(vecNumbers)@) + seq![u64Value as nat],
{
    vecNumbers.push(u64Value);
    assert(numbers(vecNumbers@) =~= numbers(old(vecNumbers)@) + seq![u64Value as nat]);
}

/// Appends a flag.
fn PushFlag(vecNumbers: &mut Vec<u64>, bFlag: bool)
    ensures
        numbers(final(vecNumbers)@) == numbers(old(vecNumbers)@) + seq![flag_number(bFlag)],
{
    PushNumber(
        vecNumbers,
        if bFlag {
            1
        } else {
            0
        },
    );
}

/// Appends a list of bytes, led by its length.
fn PushBytes(vecNumbers: &mut Vec<u64>, vecBytes: &Vec<u8>)
    ensures
        numbers(final(vecNumbers)@) == numbers(old(vecNumbers)@) + counted(byte_numbers(vecBytes@)),
{
    let ghost before = numbers(vecNumbers@);
    PushNumber(vecNumbers, vecBytes.len() as u64);
    let ghost all = byte_numbers(vecBytes@);
    let mut uAt: usize = 0;
    while uAt < vecBytes.len()
        invariant
            uAt <= vecBytes@.len(),
            all == byte_numbers(vecBytes@),
            numbers(vecNumbers@) =~= before + (seq![vecBytes@.len()] + all.take(uAt as int)),
        decreases vecBytes@.len() - uAt,
    {
        PushNumber(vecNumbers, vecBytes[uAt] as u64);
        assert(all.take(uAt + 1) =~= all.take(uAt as int).push(all[uAt as int]));
        uAt += 1;
    }
    assert(all.take(uAt as int) =~= all);
}

/// Appends the code point of a character.
fn PushCharacter(vecNumbers: &mut Vec<u64>, c: char)
    ensures
        numbers(final(vecNumbers)@) == numbers(old(vecNumbers)@) + seq![c as nat],
{
    PushNumber(vecNumbers, c as u32 as u64);
}

/// Appends the code points of a text, led by how many there are.
fn PushText(vecNumbers: &mut Vec<u64>, strText: &str)
    ensures
        numbers(final(vecNumbers)@) == numbers(old(vecNumbers)@) + counted(text_numbers(strText@)),
{
    let ghost before = numbers(vecNumbers@);
    let vecCharacters = Characters(strText);
    PushNumber(vecNumbers, vecCharacters.len() as u64);
    let ghost all = text_numbers(vecCharacters@);
    let mut uAt: usize = 0;
    while uAt < vecCharacters.len()
        invariant
            uAt <= vecCharacters@.len(),
            all == text_numbers(vecCharacters@),
            numbers(vecNumbers@) =~= before + (seq![vecCharacters@.len()] + all.take(uAt as int)),
        decreases vecCharacters@.len() - uAt,
    {
        PushCharacter(vecNumbers, vecCharacters[uAt]);
        assert(all.take(uAt + 1) =~= all.take(uAt as int).push(all[uAt as int]));
        uAt += 1;
    }
    assert(all.take(uAt as int) =~= all);
}

/// Appends a list of numbers, led by its length.
fn PushCounted(vecNumbers: &mut Vec<u64>, vecRun: &Vec<u64>)
    ensures
        numbers(final(vecNumbers)@) == numbers(old(vecNumbers)@) + counted(numbers(vecRun@)),
{
    let ghost before = numbers(vecNumbers@);
    PushNumber(vecNumbers, vecRun.len() as u64);
    let ghost all = numbers(vecRun@);
    let mut uAt: usize = 0;
    while uAt < vecRun.len()
        invariant
            uAt <= vecRun@.len(),
            all == numbers(vecRun@),
            numbers(vecNumbers@) =~= before + (seq![vecRun@.len()] + all.take(uAt as int)),
        decreases vecRun@.len() - uAt,
    {
        PushNumber(vecNumbers, vecRun[uAt]);
        assert(all.take(uAt + 1) =~= all.take(uAt as int).push(all[uAt as int]));
        uAt += 1;
    }
    assert(all.take(uAt as int) =~= all);
}

/// Appends what an override does.
fn PushAction(vecNumbers: &mut Vec<u64>, action: &OverrideAction)
    ensures
        numbers(final(vecNumbers)@) == numbers(old(vecNumbers)@) + action_numbers(
            action_view(*action),
        ),
{
    let ghost before = numbers(vecNumbers@);
    match action {
        OverrideAction::Suppress => {
            PushNumber(vecNumbers, 0);
        },
        OverrideAction::Substitute { m_vecResponse, m_vecEchoSpans } => {
            let mut vecFrom: Vec<u64> = Vec::new();
            let mut vecLength: Vec<u64> = Vec::new();
            let mut vecTo: Vec<u64> = Vec::new();
            let ghost spans = m_vecEchoSpans@;
            let ghost from = spans.map_values(|span: EchoSpan| span.m_uRequestOffset as nat);
            let ghost length = spans.map_values(|span: EchoSpan| span.m_uLength as nat);
            let ghost to = spans.map_values(|span: EchoSpan| span.m_uResponseOffset as nat);
            let mut uAt: usize = 0;
            while uAt < m_vecEchoSpans.len()
                invariant
                    uAt <= spans.len(),
                    spans == m_vecEchoSpans@,
                    from == spans.map_values(|span: EchoSpan| span.m_uRequestOffset as nat),
                    length == spans.map_values(|span: EchoSpan| span.m_uLength as nat),
                    to == spans.map_values(|span: EchoSpan| span.m_uResponseOffset as nat),
                    numbers(vecFrom@) =~= from.take(uAt as int),
                    numbers(vecLength@) =~= length.take(uAt as int),
                    numbers(vecTo@) =~= to.take(uAt as int),
                decreases spans.len() - uAt,
            {
                PushNumber(&mut vecFrom, m_vecEchoSpans[uAt].m_uRequestOffset as u64);
                PushNumber(&mut vecLength, m_vecEchoSpans[uAt].m_uLength as u64);
                PushNumber(&mut vecTo, m_vecEchoSpans[uAt].m_uResponseOffset as u64);
                uAt += 1;
            }
            assert(from.take(uAt as int) =~= from);
            assert(length.take(uAt as int) =~= length);
            assert(to.take(uAt as int) =~= to);
            PushNumber(vecNumbers, 1);
            PushBytes(vecNumbers, m_vecResponse);
            PushCounted(vecNumbers, &vecFrom);
            PushCounted(vecNumbers, &vecLength);
            PushCounted(vecNumbers, &vecTo);
            assert(numbers(vecNumbers@) =~= before + action_numbers(action_view(*action)));
        },
    }
}

/// What an override says, as numbers.
fn OverrideNumbers(rule: &ResponseOverride) -> (vecNumbers: Vec<u64>)
    ensures
        numbers(vecNumbers@) == override_numbers(override_view(*rule)),
{
    let mut vecNumbers: Vec<u64> = Vec::new();
    assert(numbers(vecNumbers@) =~= seq![]);
    PushBytes(&mut vecNumbers, &rule.m_vecRequestPattern);
    PushBytes(&mut vecNumbers, &rule.m_vecRequestMask);
    PushFlag(&mut vecNumbers, rule.m_bMatchTrailingBytes);
    PushAction(&mut vecNumbers, &rule.m_action);
    PushFlag(&mut vecNumbers, rule.m_bIsEnabled);
    PushFlag(&mut vecNumbers, rule.m_bRespondEvenIfSuppressed);
    PushText(&mut vecNumbers, rule.m_strNote.as_str());
    assert(numbers(vecNumbers@) =~= override_numbers(override_view(*rule)));
    vecNumbers
}

/// Whether one list of numbers comes at or before another one.
fn InOrder(vecA: &Vec<u64>, vecB: &Vec<u64>) -> (bInOrder: bool)
    ensures
        bInOrder == in_order(numbers(vecA@), numbers(vecB@)),
{
    let ghost a = numbers(vecA@);
    let ghost b = numbers(vecB@);
    let mut uAt: usize = 0;
    assert(a.skip(0) =~= a && b.skip(0) =~= b);
    while uAt < vecA.len() && uAt < vecB.len()
        invariant
            uAt <= vecA@.len(),
            uAt <= vecB@.len(),
            a == numbers(vecA@),
            b == numbers(vecB@),
            in_order(a, b) == in_order(a.skip(uAt as int), b.skip(uAt as int)),
        decreases vecA@.len() - uAt,
    {
        assert(a.skip(uAt as int)[0] == vecA@[uAt as int]);
        assert(b.skip(uAt as int)[0] == vecB@[uAt as int]);
        if vecA[uAt] != vecB[uAt] {
            return vecA[uAt] < vecB[uAt];
        }
        assert(a.skip(uAt as int).skip(1) =~= a.skip(uAt + 1));
        assert(b.skip(uAt as int).skip(1) =~= b.skip(uAt + 1));
        uAt += 1;
    }
    uAt == vecA.len()
}

/// Whether one override comes at or before another one in the order of what they say.
pub(crate) fn SaysAtMost(a: &ResponseOverride, b: &ResponseOverride) -> (bAtMost: bool)
    ensures
        bAtMost == says_at_most(override_view(*a), override_view(*b)),
{
    let vecA = OverrideNumbers(a);
    let vecB = OverrideNumbers(b);
    InOrder(&vecA, &vecB)
}

} // verus!
