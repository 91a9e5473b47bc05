//! The DNS TXT record that publishes a public key.
use vstd::prelude::*;
use crate::text::{append_all, append_range};

verus! {

/// `_dkic.[your-domain]. IN TXT "`: the owner name placeholder and record type.
pub open spec fn record_owner_head() -> Seq<u8> {
    seq![
        95u8, 100, 107, 105, 99, 46, 91, 121, 111, 117, 114, 45, 100, 111, 109, 97, 105, 110,
        93, 46, 32, 73, 78, 32, 84, 88, 84, 32, 34,
    ]
}

/// `v=DKIC1; k=ed25519; p=`: protocol version and algorithm tags.
pub open spec fn content_head() -> Seq<u8> {
    seq![
        118u8, 61, 68, 75, 73, 67, 49, 59, 32, 107, 61, 101, 100, 50, 53, 53, 49, 57, 59, 32,
        112, 61,
    ]
}

/// The TXT record's content for the base64 text of a public key.
pub open spec fn dns_content(key_text: Seq<u8>) -> Seq<u8> {
    content_head() + key_text
}

/// The whole one-line record: owner, type, and the quoted content.
pub open spec fn dns_record(key_text: Seq<u8>) -> Seq<u8> {
    record_owner_head() + dns_content(key_text) + seq![34u8]
}

/// Two keys' records are equal only where the key texts are.
pub proof fn lemma_dns_record_injective(a: Seq<u8>, b: Seq<u8>)
    requires
        dns_record(a) == dns_record(b),
    ensures
        a == b,
{
    let h = record_owner_head().len() + content_head().len();
    assert(dns_record(a).subrange(h as int, dns_record(a).len() - 1) =~= a);
    assert(dns_record(b).subrange(h as int, dns_record(b).len() - 1) =~= b);
}

fn record_owner_head_bytes() -> (r: Vec<u8>)
    ensures
        r@ == record_owner_head(),
{
    let r = vec![
        95u8, 100, 107, 105, 99, 46, 91, 121, 111, 117, 114, 45, 100, 111, 109, 97, 105, 110,
        93, 46, 32, 73, 78, 32, 84, 88, 84, 32, 34,
    ];
    assert(r@ =~= record_owner_head());
    r
}

fn content_head_bytes() -> (r: Vec<u8>)
    ensures
        r@ == content_head(),
{
    let r = vec![
        118u8, 61, 68, 75, 73, 67, 49, 59, 32, 107, 61, 101, 100, 50, 53, 53, 49, 57, 59, 32,
        112, 61,
    ];
    assert(r@ =~= content_head());
    r
}

/// The record content `v=DKIC1; k=ed25519; p=<key_text>`.
pub fn make_dns_content(key_text: &Vec<u8>) -> (r: Vec<u8>)
    ensures
        r@ == dns_content(key_text@),
{
    let mut r = content_head_bytes();
    append_all(&mut r, key_text);
    r
}

/// The record line `_dkic.[your-domain]. IN TXT "v=DKIC1; k=ed25519; p=<key_text>"`.
pub fn make_dns_record(key_text: &Vec<u8>) -> (r: Vec<u8>)
    ensures
        r@ == dns_record(key_text@),
{
    let mut r = record_owner_head_bytes();
    let content = make_dns_content(key_text);
    append_all(&mut r, &content);
    r.push(34u8);
    r
}

/// The base64 key text of a record line, or `None` where the line is not a
/// record of this form.
pub fn record_key_text(record: &Vec<u8>) -> (r: Option<Vec<u8>>)
    ensures
        r matches Some(t) ==> record@ == dns_record(t@),
        r is None <==> forall|t: Seq<u8>| record@ != #[trigger] dns_record(t),
{
    let mut head = record_owner_head_bytes();
    let content = content_head_bytes();
    append_all(&mut head, &content);
    let hl = head.len();
    let n = record.len();
    if n < hl + 1 || record[n - 1] != 34u8 {
        proof {
            assert forall|t: Seq<u8>| record@ != #[trigger] dns_record(t) by {
                if record@ == dns_record(t) {
                    assert(dns_record(t)[dns_record(t).len() - 1] == 34u8);
                }
            }
        }
        return None;
    }
    let mut i: usize = 0;
    while i < hl
        invariant
            hl == head@.len(),
            head@ == record_owner_head() + content_head(),
            hl + 1 <= n,
            n == record@.len(),
            i <= hl,
            forall|k: int| 0 <= k < i ==> record@[k] == head@[k],
        decreases hl - i,
    {
        if record[i] != head[i] {
            proof {
                assert forall|t: Seq<u8>| record@ != #[trigger] dns_record(t) by {
                    if record@ == dns_record(t) {
                        assert(dns_record(t) =~= head@ + t + seq![34u8]);
                        assert(dns_record(t)[i as int] == head@[i as int]);
                    }
                }
            }
            return None;
        }
        i = i + 1;
    }
    let mut t: Vec<u8> = Vec::new();
    append_range(&mut t, record, hl, n - 1);
    assert(record@ =~= head@ + t@ + seq![34u8]);
    assert(dns_record(t@) =~= head@ + t@ + seq![34u8]);
    Some(t)
}

} // verus!
