//! Decisions around the stored configuration: finding an integration,
//! checking its kind, naming a flow's file, and ordering saved flows.
use vstd::prelude::*;
use crate::adapter::{name_of, service_name};
use crate::types::{FlowMetadata, Integration, IntegrationType};

verus! {

broadcast use vstd::seq_lib::group_to_multiset_ensures;

/// Finds the first integration with identifier `id`.
pub fn find_integration(integrations: &Vec<Integration>, id: &str) -> (r: Option<usize>)
    ensures
        match r {
            Some(i) => i < integrations@.len() && integrations@[i as int].id@ == id@
                && forall|k: int| 0 <= k < i ==> (#[trigger] integrations@[k]).id@ != id@,
            None => forall|k: int| 0 <= k < integrations@.len() ==> (#[trigger] integrations@[k]).id@ != id@,
        },
{
    let wanted = String::from_str(id);
    let mut i: usize = 0;
    while i < integrations.len()
        invariant
            wanted@ == id@,
            i <= integrations@.len(),
            forall|k: int| 0 <= k < i ==> (#[trigger] integrations@[k]).id@ != id@,
        decreases integrations@.len() - i,
    {
        if integrations[i].id == wanted {
            return Some(i);
        }
        i = i + 1;
    }
    None
}

/// The error for an integration of another kind than an operation needs.
pub open spec fn wrong_kind_message(id: Seq<char>, kind: IntegrationType) -> Seq<char> {
    "Integration "@ + id + " is not a "@ + service_name(kind) + " integration"@
}

/// Checks that an integration is of the kind that an operation needs.
pub fn check_kind(integration: &Integration, kind: IntegrationType) -> (r: Result<(), String>)
    ensures
        integration.integration_type == kind ==> r is Ok,
        integration.integration_type != kind ==> (r matches Err(m) && m@ == wrong_kind_message(integration.id@, kind)),
{
    if integration.integration_type == kind {
        return Ok(());
    }
    let mut message = String::from_str("Integration ");
    message.append(integration.id.as_str());
    message.append(" is not a ");
    message.append(name_of(kind));
    message.append(" integration");
    Err(message)
}

/// Whether `char::is_alphanumeric` holds of a character.
pub uninterp spec fn alphanumeric(c: char) -> bool;

/// Relies on `char::is_alphanumeric`: Unicode letters and numbers; the ASCII
/// letters and digits are among them.
#[verifier::external_body]
fn is_alphanumeric(c: char) -> (r: bool)
    ensures
        r == alphanumeric(c),
        ('a' <= c && c <= 'z') || ('A' <= c && c <= 'Z') || ('0' <= c && c <= '9') ==> r,
{
    c.is_alphanumeric()
}

/// Whether a character may stand in a flow's file name.
pub open spec fn file_safe(c: char) -> bool {
    alphanumeric(c) || c == '-' || c == '_'
}

/// The characters of `s` that may stand in a file name, in order.
pub open spec fn safe_chars(s: Seq<char>) -> Seq<char>
    decreases s.len(),
{
    if s.len() == 0 {
        s
    } else if file_safe(s.last()) {
        safe_chars(s.drop_last()).push(s.last())
    } else {
        safe_chars(s.drop_last())
    }
}

/// The stem of a flow's file: its identifier without the characters that
/// may not stand in a file name (so it cannot leave the flows directory);
/// an identifier with nothing left is refused.
pub fn flow_file_stem(flow_id: &str) -> (r: Result<String, String>)
    ensures
        safe_chars(flow_id@).len() > 0 ==> (r matches Ok(s) && s@ == safe_chars(flow_id@)),
        safe_chars(flow_id@).len() == 0 ==> (r matches Err(m) && m@ == "Flow ID cannot be empty"@),
{
    let n = flow_id.unicode_len();
    let mut kept = String::new();
    let mut i: usize = 0;
    proof {
        assert(flow_id@.subrange(0, 0) =~= Seq::<char>::empty());
    }
    while i < n
        invariant
            n == flow_id@.len(),
            i <= n,
            kept@ == safe_chars(flow_id@.subrange(0, i as int)),
        decreases n - i,
    {
        let c = flow_id.get_char(i);
        proof {
            assert(flow_id@.subrange(0, i + 1).drop_last() =~= flow_id@.subrange(0, i as int));
            assert(flow_id@.subrange(0, i + 1).last() == c);
        }
        if is_alphanumeric(c) || c == '-' || c == '_' {
            let one = flow_id.substring_char(i, i + 1);
            kept.append(one);
            proof {
                assert(one@ =~= seq![c]);
                assert(kept@ =~= safe_chars(flow_id@.subrange(0, i + 1)));
            }
        }
        i = i + 1;
    }
    proof {
        assert(flow_id@.subrange(0, n as int) =~= flow_id@);
    }
    if kept.as_str().unicode_len() == 0 {
        return Err(String::from_str("Flow ID cannot be empty"));
    }
    Ok(kept)
}

/// Whether `a` comes before `b` in the order of `str::cmp` (character by
/// character, a proper prefix first).
pub open spec fn text_lt(a: Seq<char>, b: Seq<char>) -> bool
    decreases a.len(),
{
    if a.len() == 0 {
        b.len() > 0
    } else if b.len() == 0 {
        false
    } else if a[0] != b[0] {
        a[0] < b[0]
    } else {
        text_lt(a.drop_first(), b.drop_first())
    }
}

proof fn lemma_text_lt_irreflexive(a: Seq<char>)
    ensures
        !text_lt(a, a),
    decreases a.len(),
{
    if a.len() > 0 {
        lemma_text_lt_irreflexive(a.drop_first());
    }
}

proof fn lemma_text_lt_total(a: Seq<char>, b: Seq<char>)
    ensures
        text_lt(a, b) || text_lt(b, a) || a == b,
    decreases a.len(),
{
    if a.len() > 0 && b.len() > 0 && a[0] == b[0] {
        lemma_text_lt_total(a.drop_first(), b.drop_first());
        if a.drop_first() == b.drop_first() {
            assert(a =~= seq![a[0]] + a.drop_first());
            assert(b =~= seq![b[0]] + b.drop_first());
        }
    } else if a.len() == 0 && b.len() == 0 {
        assert(a =~= b);
    }
}

proof fn lemma_text_lt_transitive(a: Seq<char>, b: Seq<char>, c: Seq<char>)
    requires
        text_lt(a, b),
        text_lt(b, c),
    ensures
        text_lt(a, c),
    decreases a.len(),
{
    if a.len() > 0 && b.len() > 0 && c.len() > 0 && a[0] == b[0] && b[0] == c[0] {
        lemma_text_lt_transitive(a.drop_first(), b.drop_first(), c.drop_first());
    }
}

proof fn lemma_text_lt_asymmetric(a: Seq<char>, b: Seq<char>)
    requires
        text_lt(a, b),
    ensures
        !text_lt(b, a),
{
    if text_lt(b, a) {
        lemma_text_lt_transitive(a, b, a);
        lemma_text_lt_irreflexive(a);
    }
}

proof fn lemma_text_lt_skip(a: Seq<char>, b: Seq<char>, i: int)
    requires
        0 <= i <= a.len(),
        i <= b.len(),
        forall|k: int| 0 <= k < i ==> a[k] == b[k],
    ensures
        text_lt(a, b) == text_lt(a.subrange(i, a.len() as int), b.subrange(i, b.len() as int)),
    decreases i,
{
    if i > 0 {
        lemma_text_lt_skip(a, b, i - 1);
        let a1 = a.subrange(i - 1, a.len() as int);
        let b1 = b.subrange(i - 1, b.len() as int);
        assert(a1.drop_first() =~= a.subrange(i, a.len() as int));
        assert(b1.drop_first() =~= b.subrange(i, b.len() as int));
        assert(a1[0] == b1[0]);
    } else {
        assert(a.subrange(0, a.len() as int) =~= a);
        assert(b.subrange(0, b.len() as int) =~= b);
    }
}

/// Whether `a` comes before `b` in the order of `str::cmp`.
pub fn text_less(a: &str, b: &str) -> (r: bool)
    ensures
        r == text_lt(a@, b@),
{
    let n = a.unicode_len();
    let m = b.unicode_len();
    let mut i: usize = 0;
    while i < n && i < m && a.get_char(i) == b.get_char(i)
        invariant
            n == a@.len(),
            m == b@.len(),
            i <= n,
            i <= m,
            forall|k: int| 0 <= k < i ==> a@[k] == b@[k],
        decreases n - i,
    {
        i = i + 1;
    }
    proof {
        lemma_text_lt_skip(a@, b@, i as int);
        let ra = a@.subrange(i as int, n as int);
        let rb = b@.subrange(i as int, m as int);
        if i < n && i < m {
            assert(ra[0] == a@[i as int]);
            assert(rb[0] == b@[i as int]);
        }
    }
    if i < n && i < m {
        a.get_char(i) < b.get_char(i)
    } else {
        i == n && i < m
    }
}

/// Whether saved flows stand newest first: no flow was updated before one
/// that follows it.
pub open spec fn newest_first(flows: Seq<FlowMetadata>) -> bool {
    forall|i: int, j: int| 0 <= i < j < flows.len() ==> !text_lt(
        (#[trigger] flows[i]).updated_at@,
        (#[trigger] flows[j]).updated_at@,
    )
}

/// Orders saved flows newest first (by their update time, as written).
pub fn order_newest_first(flows: Vec<FlowMetadata>) -> (r: Vec<FlowMetadata>)
    ensures
        newest_first(r@),
        r@.to_multiset() == flows@.to_multiset(),
{
    let ghost source = flows@;
    let mut rest = flows;
    let mut out: Vec<FlowMetadata> = Vec::new();
    proof {
        assert(source.subrange(0, 0) =~= Seq::<FlowMetadata>::empty());
        assert(rest@ =~= source.subrange(0, source.len() as int));
        assert(out@ =~= source.subrange(0, 0));
    }
    while rest.len() > 0
        invariant
            out@.len() <= source.len(),
            rest@ == source.subrange(out@.len() as int, source.len() as int),
            newest_first(out@),
            out@.to_multiset() == source.subrange(0, out@.len() as int).to_multiset(),
        decreases rest@.len(),
    {
        let ghost done = out@.len() as int;
        let x = rest.remove(0);
        proof {
            assert(x == source[done]);
            assert(rest@ =~= source.subrange(done + 1, source.len() as int));
        }
        let mut k: usize = 0;
        while k < out.len() && !text_less(out[k].updated_at.as_str(), x.updated_at.as_str())
            invariant
                k <= out@.len(),
                forall|i: int| 0 <= i < k ==> !text_lt((#[trigger] out@[i]).updated_at@, x.updated_at@),
            decreases out@.len() - k,
        {
            k = k + 1;
        }
        let ghost before = out@;
        proof {
            assert forall|i: int, j: int| 0 <= i < j < before.len() + 1 implies !text_lt(
                (#[trigger] before.insert(k as int, x)[i]).updated_at@,
                (#[trigger] before.insert(k as int, x)[j]).updated_at@,
            ) by {
                let s = before.insert(k as int, x);
                if j == k {
                    assert(s[i] == before[i]);
                } else if i == k {
                    assert(s[j] == before[j - 1]);
                    if k < before.len() {
                        assert(text_lt(before[k as int].updated_at@, x.updated_at@));
                        if j - 1 > k {
                            assert(!text_lt(before[k as int].updated_at@, before[j - 1].updated_at@));
                        }
                        lemma_text_lt_total(before[k as int].updated_at@, before[j - 1].updated_at@);
                        if text_lt(before[j - 1].updated_at@, before[k as int].updated_at@) {
                            lemma_text_lt_transitive(before[j - 1].updated_at@, before[k as int].updated_at@, x.updated_at@);
                            lemma_text_lt_asymmetric(before[j - 1].updated_at@, x.updated_at@);
                        } else {
                            lemma_text_lt_asymmetric(before[k as int].updated_at@, x.updated_at@);
                        }
                    }
                } else {
                    let bi = if i < k { i } else { i - 1 };
                    let bj = if j < k { j } else { j - 1 };
                    assert(s[i] == before[bi]);
                    assert(s[j] == before[bj]);
                }
            }
        }
        out.insert(k, x);
        proof {
            assert(out@ == before.insert(k as int, x));
            assert(newest_first(out@));
            let t = before.insert(k as int, x);
            assert(t.remove(k as int) =~= before);
            assert(t[k as int] == x);
            assert(t.to_multiset().count(x) > 0);
            assert(t.to_multiset() =~= before.to_multiset().insert(x));
            let s = source.subrange(0, done + 1);
            assert(s =~= source.subrange(0, done).push(x));
        }
    }
    proof {
        assert(source.subrange(0, source.len() as int) =~= source);
    }
    out
}

} // verus!
