use vstd::prelude::*;
use vstd::seq_lib::*;

use crate::cli::texts;
use crate::text::{chars_of, lemma_text_order_total, text_le, text_le_exec, text_order};

verus! {

broadcast use vstd::seq_lib::group_to_multiset_ensures;

// ---------------------------------------------------------------------------
// Card nodes
// ---------------------------------------------------------------------------

/// What std's `char::is_numeric` says of a character (Unicode numeric categories).
pub uninterp spec fn numeric_char(c: char) -> bool;

/// `char::is_numeric`: whether `c` has one of Unicode's numeric general categories; the
/// result is named `numeric_char`, and ASCII digits are numeric.
#[verifier::external_body]
fn is_numeric(c: char) -> (r: bool)
    ensures
        r == numeric_char(c),
        '0' <= c <= '9' ==> r,
{
    c.is_numeric()
}

/// Whether every character of `s` is numeric.
pub open spec fn all_numeric(s: Seq<char>) -> bool {
    forall|i: int| 0 <= i < s.len() ==> #[trigger] numeric_char(s[i])
}

/// Whether a file name under the DRM device directory names a primary card node: `card`
/// followed by one or more numeric characters.
pub open spec fn card_node_name(name: Seq<char>) -> bool {
    &&& name.len() > 4
    &&& name.take(4) == "card"@
    &&& all_numeric(name.skip(4))
}

/// Whether a device file name names a primary card node (see `card_node_name`).
pub fn is_card_node(name: &str) -> (r: bool)
    ensures
        r == card_node_name(name@),
{
    let v = chars_of(name);
    proof {
        reveal_strlit("card");
    }
    if v.len() <= 4 || v[0] != 'c' || v[1] != 'a' || v[2] != 'r' || v[3] != 'd' {
        proof {
            assert("card"@ =~= seq!['c', 'a', 'r', 'd']);
            assert(v@ == name@);
            if v.len() > 4 && name@.take(4) == "card"@ {
                assert(v@.take(4) == "card"@);
                assert(v@[0] == 'c' && v@[1] == 'a' && v@[2] == 'r' && v@[3] == 'd') by {
                    assert(v@.take(4)[0] == v@[0] && v@.take(4)[1] == v@[1]);
                    assert(v@.take(4)[2] == v@[2] && v@.take(4)[3] == v@[3]);
                }
            }
        }
        return false;
    }
    assert(v@.take(4) =~= seq!['c', 'a', 'r', 'd']);
    assert("card"@ =~= seq!['c', 'a', 'r', 'd']);
    let mut i: usize = 4;
    while i < v.len()
        invariant
            v@ == name@,
            4 <= i <= v@.len(),
            forall|j: int| 4 <= j < i ==> #[trigger] numeric_char(v@[j]),
        decreases v@.len() - i,
    {
        if !is_numeric(v[i]) {
            assert(v@.skip(4)[i - 4] == v@[i as int]);
            return false;
        }
        i = i + 1;
    }
    assert forall|j: int| 0 <= j < v@.skip(4).len() implies #[trigger] numeric_char(v@.skip(4)[j]) by {
        assert(v@.skip(4)[j] == v@[j + 4]);
    }
    true
}

/// The card node names of `names`, in order.
pub open spec fn card_nodes_of(names: Seq<Seq<char>>) -> Seq<Seq<char>>
    decreases names.len(),
{
    if names.len() == 0 {
        Seq::empty()
    } else if card_node_name(names.last()) {
        card_nodes_of(names.drop_last()).push(names.last())
    } else {
        card_nodes_of(names.drop_last())
    }
}

proof fn lemma_texts_insert(v: Seq<String>, j: int, s: String)
    requires
        0 <= j <= v.len(),
    ensures
        texts(v.insert(j, s)) == texts(v).insert(j, s@),
{
    assert(texts(v.insert(j, s)) =~= texts(v).insert(j, s@));
}

proof fn lemma_insert_sorted(s: Seq<Seq<char>>, j: int, x: Seq<char>)
    requires
        vstd::relations::total_ordering(text_order()),
        vstd::relations::sorted_by(s, text_order()),
        0 <= j <= s.len(),
        forall|k: int| 0 <= k < j ==> text_le(#[trigger] s[k], x),
        j < s.len() ==> text_le(x, s[j]),
    ensures
        vstd::relations::sorted_by(s.insert(j, x), text_order()),
{
    let r = text_order();
    let t = s.insert(j, x);
    assert forall|p: int, q: int| 0 <= p < q < t.len() implies #[trigger] r(t[p], t[q]) by {
        if q < j {
            assert(t[p] == s[p] && t[q] == s[q]);
            assert(r(s[p], s[q]));
        } else if q == j {
            assert(t[p] == s[p] && t[q] == x);
        } else if p == j {
            assert(t[p] == x && t[q] == s[q - 1]);
            if q - 1 > j {
                assert(r(s[j], s[q - 1]));
                assert(r(x, s[j]));
            }
        } else if p < j {
            assert(t[p] == s[p] && t[q] == s[q - 1]);
            assert(r(s[p], s[q - 1]));
        } else {
            assert(t[p] == s[p - 1] && t[q] == s[q - 1]);
            assert(r(s[p - 1], s[q - 1]));
        }
    }
}

/// The card nodes among the file names of the DRM device directory, in lexicographic order.
pub fn card_nodes(names: &Vec<String>) -> (r: Vec<String>)
    ensures
        texts(r@) == card_nodes_of(texts(names@)).sort_by(text_order()),
{
    let ghost w = texts(names@);
    let mut out: Vec<String> = Vec::new();
    let mut i: usize = 0;
    proof {
        lemma_text_order_total();
        assert(texts(out@) =~= Seq::<Seq<char>>::empty());
        assert(w.take(0) =~= Seq::<Seq<char>>::empty());
    }
    while i < names.len()
        invariant
            w == texts(names@),
            i <= names@.len(),
            vstd::relations::total_ordering(text_order()),
            vstd::relations::sorted_by(texts(out@), text_order()),
            texts(out@).to_multiset() == card_nodes_of(w.take(i as int)).to_multiset(),
        decreases names@.len() - i,
    {
        let name = &names[i];
        proof {
            assert(w.take(i + 1).drop_last() =~= w.take(i as int));
            assert(w.take(i + 1).last() == name@);
        }
        if is_card_node(name.as_str()) {
            let nc = chars_of(name.as_str());
            let ghost before = texts(out@);
            let mut j: usize = 0;
            let mut scanning = true;
            while scanning && j < out.len()
                invariant
                    before == texts(out@),
                    j <= out@.len(),
                    nc@ == name@,
                    forall|k: int| 0 <= k < j ==> text_le(#[trigger] before[k], name@),
                    !scanning ==> j < out@.len() && !text_le(before[j as int], name@),
                decreases out@.len() - j + if scanning { 1int } else { 0int },
            {
                let oc = chars_of(out[j].as_str());
                assert(before[j as int] == out@[j as int]@);
                if text_le_exec(&oc, &nc) {
                    j = j + 1;
                } else {
                    scanning = false;
                }
            }
            proof {
                let r = text_order();
                if j < out@.len() {
                    assert(!r(before[j as int], name@));
                    assert(r(before[j as int], name@) || r(name@, before[j as int]));
                }
                lemma_insert_sorted(before, j as int, name@);
                lemma_texts_insert(out@, j as int, *name);
            }
            out.insert(j, name.clone());
        }
        i = i + 1;
    }
    proof {
        assert(w.take(w.len() as int) =~= w);
        let c = card_nodes_of(w);
        c.lemma_sort_by_ensures(text_order());
        lemma_sorted_unique(texts(out@), c.sort_by(text_order()), text_order());
    }
    out
}

// ---------------------------------------------------------------------------
// Connectors, modes and CRTCs
// ---------------------------------------------------------------------------

/// What the display discovery reads of one connector of a card: whether a monitor is
/// connected, which of its modes are flagged preferred (one entry per mode, in the order the
/// connector lists them), and, for each of its encoders in order, the CRTCs that encoder can
/// drive (by handle number).
#[derive(Debug)]
pub struct ConnectorProbe {
    pub connected: bool,
    pub preferred_modes: Vec<bool>,
    pub encoder_crtcs: Vec<Vec<u32>>,
}

/// The mode a connector is driven with: the first mode flagged preferred, else the first
/// mode; none when it lists no mode.
pub open spec fn mode_choice(preferred: Seq<bool>) -> Option<int> {
    if preferred.len() == 0 {
        None
    } else if exists|i: int| 0 <= i < preferred.len() && preferred[i] {
        Some(choose|i: int| 0 <= i < preferred.len() && preferred[i] && forall|k: int| 0 <= k < i ==> !preferred[k])
    } else {
        Some(0)
    }
}

/// The first CRTC of `crtcs` (in card order) that is not in `used` and, when `allowed` is
/// given, is one of `allowed`.
pub open spec fn first_free(crtcs: Seq<u32>, allowed: Option<Seq<u32>>, used: Seq<u32>) -> Option<u32>
    decreases crtcs.len(),
{
    if crtcs.len() == 0 {
        None
    } else if !used.contains(crtcs[0]) && match allowed {
        Some(a) => a.contains(crtcs[0]),
        None => true,
    } {
        Some(crtcs[0])
    } else {
        first_free(crtcs.drop_first(), allowed, used)
    }
}

/// The CRTC a connector gets: the first free one that its first encoder able to take one can
/// drive (encoders tried in order); failing that, the first free CRTC of the card.
pub open spec fn crtc_choice(crtcs: Seq<u32>, encoders: Seq<Seq<u32>>, used: Seq<u32>) -> Option<u32>
    decreases encoders.len(),
{
    if encoders.len() == 0 {
        first_free(crtcs, None, used)
    } else {
        match first_free(crtcs, Some(encoders[0]), used) {
            Some(c) => Some(c),
            None => crtc_choice(crtcs, encoders.drop_first(), used),
        }
    }
}

/// The mode index and CRTC chosen for a connector given the CRTCs already taken; none when
/// it has no monitor, no mode, or no free CRTC.
pub open spec fn connector_choice(crtcs: Seq<u32>, p: ConnectorProbe, used: Seq<u32>) -> Option<(usize, u32)> {
    if !p.connected {
        None
    } else {
        match (mode_choice(p.preferred_modes@), crtc_choice(crtcs, p.encoder_crtcs@.map_values(|e: Vec<u32>| e@), used)) {
            (Some(m), Some(c)) => Some((m as usize, c)),
            _ => None,
        }
    }
}

/// The choices for `probes` in order, each CRTC taken staying taken for the connectors after.
pub open spec fn plan_from(crtcs: Seq<u32>, probes: Seq<ConnectorProbe>, used: Seq<u32>) -> Seq<Option<(usize, u32)>>
    decreases probes.len(),
{
    if probes.len() == 0 {
        Seq::empty()
    } else {
        let choice = connector_choice(crtcs, probes[0], used);
        let next_used = match choice {
            Some((_, c)) => used.push(c),
            None => used,
        };
        seq![choice] + plan_from(crtcs, probes.drop_first(), next_used)
    }
}

fn preferred_mode(preferred: &Vec<bool>) -> (r: Option<usize>)
    ensures
        r == match mode_choice(preferred@) {
            Some(i) => Some(i as usize),
            None => None,
        },
{
    if preferred.len() == 0 {
        return None;
    }
    let mut i: usize = 0;
    while i < preferred.len()
        invariant
            i <= preferred@.len(),
            forall|k: int| 0 <= k < i ==> !preferred@[k],
        decreases preferred@.len() - i,
    {
        if preferred[i] {
            assert(exists|j: int| 0 <= j < preferred@.len() && preferred@[j]);
            let ghost c = choose|j: int| 0 <= j < preferred@.len() && preferred@[j] && forall|k: int| 0 <= k < j ==> !preferred@[k];
            assert(c == i as int) by {
                if c < i {
                    assert(!preferred@[c]);
                } else if c > i {
                    assert(!preferred@[i as int]);
                }
            }
            return Some(i);
        }
        i = i + 1;
    }
    Some(0)
}

fn holds(v: &Vec<u32>, x: u32) -> (r: bool)
    ensures
        r == v@.contains(x),
{
    let mut i: usize = 0;
    while i < v.len()
        invariant
            i <= v@.len(),
            forall|k: int| 0 <= k < i ==> v@[k] != x,
        decreases v@.len() - i,
    {
        if v[i] == x {
            return true;
        }
        i = i + 1;
    }
    false
}

fn free_crtc(crtcs: &Vec<u32>, allowed: Option<&Vec<u32>>, used: &Vec<u32>) -> (r: Option<u32>)
    ensures
        r == first_free(
            crtcs@,
            match allowed {
                Some(a) => Some(a@),
                None => None,
            },
            used@,
        ),
{
    let ghost al = match allowed {
        Some(a) => Some(a@),
        None => None,
    };
    let mut i: usize = 0;
    assert(crtcs@.skip(0) =~= crtcs@);
    while i < crtcs.len()
        invariant
            i <= crtcs@.len(),
            first_free(crtcs@, al, used@) == first_free(crtcs@.skip(i as int), al, used@),
            al == match allowed {
                Some(a) => Some(a@),
                None => None,
            },
        decreases crtcs@.len() - i,
    {
        let c = crtcs[i];
        assert(crtcs@.skip(i as int)[0] == c);
        assert(crtcs@.skip(i as int).drop_first() =~= crtcs@.skip(i + 1));
        let ok = !holds(used, c) && match allowed {
            Some(a) => holds(a, c),
            None => true,
        };
        if ok {
            return Some(c);
        }
        i = i + 1;
    }
    None
}

fn pick_crtc(crtcs: &Vec<u32>, encoders: &Vec<Vec<u32>>, used: &Vec<u32>) -> (r: Option<u32>)
    ensures
        r == crtc_choice(crtcs@, encoders@.map_values(|e: Vec<u32>| e@), used@),
{
    let ghost es = encoders@.map_values(|e: Vec<u32>| e@);
    let mut i: usize = 0;
    assert(es.skip(0) =~= es);
    while i < encoders.len()
        invariant
            es == encoders@.map_values(|e: Vec<u32>| e@),
            i <= encoders@.len(),
            crtc_choice(crtcs@, es, used@) == crtc_choice(crtcs@, es.skip(i as int), used@),
        decreases encoders@.len() - i,
    {
        assert(es.skip(i as int)[0] == encoders@[i as int]@);
        assert(es.skip(i as int).drop_first() =~= es.skip(i + 1));
        if let Some(c) = free_crtc(crtcs, Some(&encoders[i]), used) {
            return Some(c);
        }
        i = i + 1;
    }
    assert(es.skip(i as int).len() == 0);
    free_crtc(crtcs, None, used)
}

/// Chooses, for each connector of a card in order, the mode and CRTC it is driven with (see
/// `plan_from`), the card's CRTCs being `crtcs` in card order and none taken at first.
pub fn plan_outputs(crtcs: &Vec<u32>, probes: &Vec<ConnectorProbe>) -> (r: Vec<Option<(usize, u32)>>)
    ensures
        r@ == plan_from(crtcs@, probes@, Seq::empty()),
{
    let mut used: Vec<u32> = Vec::new();
    let mut out: Vec<Option<(usize, u32)>> = Vec::new();
    let mut i: usize = 0;
    assert(probes@.skip(0) =~= probes@);
    while i < probes.len()
        invariant
            i <= probes@.len(),
            plan_from(crtcs@, probes@, Seq::empty()) == out@ + plan_from(crtcs@, probes@.skip(i as int), used@),
        decreases probes@.len() - i,
    {
        let p = &probes[i];
        let ghost rest = probes@.skip(i as int);
        assert(rest[0] == *p);
        assert(rest.drop_first() =~= probes@.skip(i + 1));
        let choice = if p.connected {
            match (preferred_mode(&p.preferred_modes), pick_crtc(crtcs, &p.encoder_crtcs, &used)) {
                (Some(m), Some(c)) => Some((m, c)),
                _ => None,
            }
        } else {
            None
        };
        assert(choice == connector_choice(crtcs@, *p, used@));
        let ghost old_out = out@;
        let ghost used_before = used@;
        out.push(choice);
        if let Some((_, c)) = choice {
            used.push(c);
        }
        let ghost tail = plan_from(crtcs@, probes@.skip(i + 1), used@);
        assert(plan_from(crtcs@, rest, used_before) == seq![choice] + tail);
        assert(old_out + (seq![choice] + tail) =~= out@ + tail);
        i = i + 1;
    }
    assert(out@ + Seq::<Option<(usize, u32)>>::empty() =~= out@);
    out
}

} // verus!
