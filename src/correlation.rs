//! Correlation of referenced subdomains with the addresses that referenced them.
use vstd::prelude::*;
use vstd::string::*;
use vstd::utf8::*;

use crate::address::IpAddress;

verus! {

/// The transport on which an interaction arrived.
#[derive(PartialEq, Eq, Structural, Clone, Copy, Debug)]
pub enum Channel {
    Dns,
    Http,
}

/// One observed interaction: which subdomain was referenced, from where, and how.
#[derive(Clone, Debug)]
pub struct CorrelationEvent {
    pub subdomain: String,
    pub source: IpAddress,
    pub channel: Channel,
}

/// The mathematical content of a [`CorrelationEvent`].
pub struct EventModel {
    pub subdomain: Seq<char>,
    pub source: IpAddress,
    pub channel: Channel,
}

impl View for CorrelationEvent {
    type V = EventModel;

    open spec fn view(&self) -> EventModel {
        EventModel { subdomain: self.subdomain@, source: self.source, channel: self.channel }
    }
}

/// The subdomain part of `name` below `apex`: `Some(l)` exactly when `name` is
/// `l`, a dot, and `apex`; `None` for any other name, the apex itself included.
pub open spec fn subdomain_of(name: Seq<char>, apex: Seq<char>) -> Option<Seq<char>> {
    let n = name.len() - apex.len() - 1;
    if n >= 0 && name.subrange(n, name.len() as int) == seq!['.'] + apex {
        Some(name.subrange(0, n))
    } else {
        None
    }
}

/// The events recorded for a DNS request that queries `names`, in order: one
/// for each name that lies strictly below `apex`.
pub open spec fn dns_event_models(names: Seq<Seq<char>>, apex: Seq<char>, source: IpAddress) -> Seq<
    EventModel,
>
    decreases names.len(),
{
    if names.len() == 0 {
        seq![]
    } else {
        let earlier = dns_event_models(names.drop_last(), apex, source);
        match subdomain_of(names.last(), apex) {
            Some(s) => earlier.push(EventModel { subdomain: s, source, channel: Channel::Dns }),
            None => earlier,
        }
    }
}

proof fn lemma_encode_concat(a: Seq<char>, b: Seq<char>)
    ensures
        encode_utf8(a + b) == encode_utf8(a) + encode_utf8(b),
    decreases a.len(),
{
    if a.len() == 0 {
        assert(a + b =~= b);
        assert(encode_utf8(a) + encode_utf8(b) =~= encode_utf8(b));
    } else {
        lemma_encode_concat(a.drop_first(), b);
        assert((a + b).drop_first() =~= a.drop_first() + b);
        assert((a + b)[0] == a[0]);
        assert(encode_utf8(a + b) =~= encode_utf8(a) + encode_utf8(b));
    }
}

/// A query for `label.apex` gives exactly one event, whose subdomain is
/// `label`; a query for the apex itself gives none.
pub proof fn lemma_label_query_event(label: Seq<char>, apex: Seq<char>, source: IpAddress)
    ensures
        dns_event_models(seq![label + seq!['.'] + apex], apex, source) == seq![
            EventModel { subdomain: label, source, channel: Channel::Dns },
        ],
        dns_event_models(seq![apex], apex, source) == Seq::<EventModel>::empty(),
{
    let name = label + seq!['.'] + apex;
    let n = name.len() - apex.len() - 1;
    assert(name.subrange(n, name.len() as int) =~= seq!['.'] + apex);
    assert(name.subrange(0, n) =~= label);
    assert(seq![name].drop_last() =~= Seq::<Seq<char>>::empty());
    assert(seq![apex].drop_last() =~= Seq::<Seq<char>>::empty());
    assert(subdomain_of(name, apex) == Some(label));
    assert(seq![name].last() == name);
    assert(seq![apex].last() == apex);
    assert(dns_event_models(Seq::<Seq<char>>::empty(), apex, source) == Seq::<EventModel>::empty());
    assert(dns_event_models(seq![name], apex, source) =~= seq![
        EventModel { subdomain: label, source, channel: Channel::Dns },
    ]);
}

/// The part of `name` before `.apex`, when `name` ends with a dot followed by `apex`.
pub fn strip_apex(name: &str, apex: &str) -> (r: Option<String>)
    ensures
        match r {
            Some(s) => subdomain_of(name@, apex@) == Some(s@),
            None => subdomain_of(name@, apex@) is None,
        },
{
    let mut suffix = String::from_str(".");
    suffix.append(apex);
    let name_bytes = name.as_bytes();
    let suffix_bytes = suffix.as_str().as_bytes();
    let ghost dot = seq!['.'];
    let ghost suf = dot + apex@;
    proof {
        reveal_strlit(".");
        assert(suffix@ =~= suf);
        lemma_encode_concat(dot, apex@);
    }
    let name_len = name_bytes.len();
    let suffix_len = suffix_bytes.len();
    if suffix_len > name_len {
        proof {
            lemma_no_byte_suffix(name@, suf);
        }
        return None;
    }
    let mid = name_len - suffix_len;
    let mut i: usize = 0;
    while i < suffix_len
        invariant
            i <= suffix_len <= name_len,
            mid == name_len - suffix_len,
            name_bytes@ == encode_utf8(name@),
            suffix_bytes@ == encode_utf8(suf),
            name_len == name_bytes@.len(),
            suffix_len == suffix_bytes@.len(),
            suf == seq!['.'] + apex@,
            forall|k: int| 0 <= k < i ==> name_bytes@[mid + k] == suffix_bytes@[k],
        decreases suffix_len - i,
    {
        if name_bytes[mid + i] != suffix_bytes[i] {
            proof {
                lemma_no_byte_suffix(name@, suf);
                let nb = encode_utf8(name@);
                let sb = encode_utf8(suf);
                assert(nb.subrange(nb.len() - sb.len(), nb.len() as int)[i as int] == nb[mid + i]);
            }
            return None;
        }
        i += 1;
    }
    proof {
        let nb = encode_utf8(name@);
        assert(nb.subrange(mid as int, nb.len() as int) =~= encode_utf8(suf));
        assert(encode_utf8(dot) =~= seq![46u8]) by {
            assert(dot.drop_first() =~= Seq::<char>::empty());
            assert(('.' as u32) == 46u32);
            assert(46u32 & 0x7F == 46u32) by (bit_vector);
            assert(encode_scalar(dot[0] as u32) =~= seq![46u8]);
            assert(encode_utf8(dot.drop_first()) =~= Seq::<u8>::empty());
        }
        assert(encode_utf8(suf) =~= seq![46u8] + encode_utf8(apex@));
        assert(encode_utf8(suf)[0] == 46u8);
        assert(nb.subrange(mid as int, nb.len() as int)[0] == nb[mid as int]);
        assert(nb[mid as int] == 46u8);
        encode_utf8_valid_utf8(name@);
        is_char_boundary_iff_not_is_continuation_byte(nb, mid as int);
        assert(is_char_boundary(nb, mid as int));
    }
    let (head, _tail) = name.split_at(mid);
    proof {
        let nb = encode_utf8(name@);
        decode_utf8_split(nb, mid as int);
        encode_utf8_decode_utf8(name@);
        encode_utf8_decode_utf8(head@);
        encode_utf8_decode_utf8(suf);
        assert(name@ =~= head@ + suf);
        let n = name@.len() - apex@.len() - 1;
        assert(name@.subrange(n, name@.len() as int) =~= suf);
        assert(name@.subrange(0, n) =~= head@);
    }
    Some(head.to_owned())
}

/// When `name` has no byte-level suffix equal to the encoding of `suf`, it has no
/// character-level suffix `suf` either.
proof fn lemma_no_byte_suffix(name: Seq<char>, suf: Seq<char>)
    requires
        suf.len() > 0,
    ensures
        ({
            let nb = encode_utf8(name);
            let sb = encode_utf8(suf);
            name.len() >= suf.len() && name.subrange(name.len() - suf.len(), name.len() as int)
                == suf ==> sb.len() <= nb.len() && nb.subrange(nb.len() - sb.len(), nb.len() as int)
                == sb
        }),
{
    if name.len() >= suf.len() && name.subrange(name.len() - suf.len(), name.len() as int) == suf {
        let head = name.subrange(0, name.len() - suf.len());
        assert(name =~= head + suf);
        lemma_encode_concat(head, suf);
        let nb = encode_utf8(name);
        let sb = encode_utf8(suf);
        assert(nb.subrange(nb.len() - sb.len(), nb.len() as int) =~= sb);
    }
}

/// The events for one DNS request from `source` that queries `names`: each name
/// strictly below `apex` gives one event with the part before the apex, in the
/// order of the queries. Resolution itself is not touched.
pub fn dns_events(names: &Vec<String>, apex: &str, source: IpAddress) -> (r: Vec<CorrelationEvent>)
    ensures
        r@.map_values(|e: CorrelationEvent| e@) == dns_event_models(
            names@.map_values(|s: String| s@),
            apex@,
            source,
        ),
{
    let ghost views = names@.map_values(|s: String| s@);
    let mut events: Vec<CorrelationEvent> = Vec::new();
    let mut i: usize = 0;
    while i < names.len()
        invariant
            i <= names@.len(),
            views == names@.map_values(|s: String| s@),
            events@.map_values(|e: CorrelationEvent| e@) == dns_event_models(
                views.take(i as int),
                apex@,
                source,
            ),
        decreases names@.len() - i,
    {
        let found = strip_apex(names[i].as_str(), apex);
        proof {
            assert(views.take(i + 1).drop_last() =~= views.take(i as int));
            assert(views.take(i + 1).last() == names@[i as int]@);
        }
        match found {
            Some(subdomain) => {
                events.push(CorrelationEvent { subdomain, source, channel: Channel::Dns });
            },
            None => {},
        }
        proof {
            assert(events@.map_values(|e: CorrelationEvent| e@) =~= dns_event_models(
                views.take(i + 1),
                apex@,
                source,
            ));
        }
        i += 1;
    }
    proof {
        assert(views.take(names@.len() as int) =~= views);
    }
    events
}

/// What an HTTP report of `subdomain` from `source` gives: its event, recorded
/// as received, and the response status, which is always success (200).
pub fn http_report(subdomain: String, source: IpAddress) -> (r: (CorrelationEvent, u16))
    ensures
        r.0@ == (EventModel { subdomain: subdomain@, source, channel: Channel::Http }),
        r.1 == 200,
{
    (CorrelationEvent { subdomain, source, channel: Channel::Http }, 200)
}

} // verus!
