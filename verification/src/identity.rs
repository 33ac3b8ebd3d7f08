//! A document stands for one encoding, and so for one request.
//!
//! Base64 text holds no quote, so in a document every text ends at the next
//! quote and the document can be taken apart in one way only.

use crate::codec::is_base64_text;
use crate::decoder::lemma_encoding_identifies_request;
use crate::encoder::{
    canonical_json, encoding_of, json_text, pairs_text, reversible, texts_are_base64,
    CanonicalEncodingView,
};
use crate::request::CapturedRequestView;
use vstd::prelude::*;

verus! {

/// Text without a quote.
pub open spec fn plain(text: Seq<char>) -> bool {
    forall|i: int| 0 <= i < text.len() ==> #[trigger] text[i] != '"'
}

/// Pairs of texts without a quote.
pub open spec fn pairs_plain(pairs: Seq<(Seq<char>, Seq<char>)>) -> bool {
    forall|i: int|
        0 <= i < pairs.len() ==> plain((#[trigger] pairs[i]).0) && plain(pairs[i].1)
}

/// An encoding whose texts hold no quote.
pub open spec fn encoding_plain(encoding: CanonicalEncodingView) -> bool {
    &&& plain(encoding.method)
    &&& plain(encoding.version)
    &&& plain(encoding.uri)
    &&& pairs_plain(encoding.headers)
    &&& plain(encoding.body)
}

/// Base64 text holds no quote.
pub proof fn lemma_base64_text_is_plain(text: Seq<char>)
    requires
        is_base64_text(text),
    ensures
        plain(text),
{
}

/// An encoding made of base64 texts holds no quote.
pub proof fn lemma_base64_encoding_is_plain(encoding: CanonicalEncodingView)
    requires
        texts_are_base64(encoding),
    ensures
        encoding_plain(encoding),
{
    assert forall|i: int| 0 <= i < encoding.headers.len() implies plain(
        (#[trigger] encoding.headers[i]).0,
    ) && plain(encoding.headers[i].1) by {
        lemma_base64_text_is_plain(encoding.headers[i].0);
        lemma_base64_text_is_plain(encoding.headers[i].1);
    }
}

proof fn lemma_cancel_suffix(a: Seq<char>, b: Seq<char>, suffix: Seq<char>)
    requires
        a + suffix == b + suffix,
    ensures
        a == b,
{
    assert((a + suffix).len() == a.len() + suffix.len());
    assert((b + suffix).len() == b.len() + suffix.len());
    assert forall|i: int| 0 <= i < a.len() implies a[i] == b[i] by {
        assert((a + suffix)[i] == a[i]);
        assert((b + suffix)[i] == b[i]);
    }
    assert(a =~= b);
}

proof fn lemma_cancel_last(a: Seq<char>, b: Seq<char>, c: char)
    requires
        a.push(c) == b.push(c),
    ensures
        a == b,
{
    assert(a =~= a.push(c).drop_last());
    assert(b =~= b.push(c).drop_last());
}

/// A text without a quote that follows a quote is found from the right.
proof fn lemma_split_right(a: Seq<char>, x: Seq<char>, b: Seq<char>, y: Seq<char>)
    requires
        plain(x),
        plain(y),
        a.push('"') + x == b.push('"') + y,
    ensures
        a == b,
        x == y,
{
    let s = a.push('"') + x;
    let t = b.push('"') + y;
    assert(s.len() == a.len() + 1 + x.len());
    assert(t.len() == b.len() + 1 + y.len());
    if x.len() < y.len() {
        assert(s[a.len() as int] == '"');
        assert(t[a.len() as int] == y[a.len() - b.len() - 1]);
        assert(false);
    }
    if y.len() < x.len() {
        assert(t[b.len() as int] == '"');
        assert(s[b.len() as int] == x[b.len() - a.len() - 1]);
        assert(false);
    }
    assert forall|i: int| 0 <= i < a.len() implies a[i] == b[i] by {
        assert(s[i] == a[i]);
        assert(t[i] == b[i]);
    }
    assert(a =~= b);
    assert forall|i: int| 0 <= i < x.len() implies x[i] == y[i] by {
        assert(s[a.len() + 1 + i] == x[i]);
        assert(t[a.len() + 1 + i] == y[i]);
    }
    assert(x =~= y);
}

/// A text without a quote that follows a separator ending in a quote.
proof fn lemma_field_step(
    a: Seq<char>,
    b: Seq<char>,
    separator: Seq<char>,
    x: Seq<char>,
    y: Seq<char>,
)
    requires
        separator.len() > 0,
        separator.last() == '"',
        plain(x),
        plain(y),
        (a + separator) + x == (b + separator) + y,
    ensures
        a == b,
        x == y,
{
    let cut = separator.drop_last();
    assert((a + separator) + x =~= (a + cut).push('"') + x);
    assert((b + separator) + y =~= (b + cut).push('"') + y);
    lemma_split_right(a + cut, x, b + cut, y);
    lemma_cancel_suffix(a, b, cut);
}

/// The text up to and including the headers written so far, after the
/// bracket that opens the array.
spec fn opened(before: Seq<char>, pairs: Seq<(Seq<char>, Seq<char>)>) -> Seq<char> {
    before.push('[') + pairs_text(pairs)
}

/// What stands in front of the last header.
spec fn front(before: Seq<char>, pairs: Seq<(Seq<char>, Seq<char>)>) -> Seq<char> {
    if pairs.len() == 1 {
        before.push('[')
    } else {
        opened(before, pairs.drop_last()).push(',')
    }
}

proof fn lemma_opened_shape(before: Seq<char>, pairs: Seq<(Seq<char>, Seq<char>)>)
    requires
        pairs.len() > 0,
    ensures
        opened(before, pairs) == ((front(before, pairs).push('[').push('"') + pairs.last().0).push(
            '"',
        ).push(',').push('"') + pairs.last().1).push('"').push(']'),
{
    reveal_strlit("[\"");
    reveal_strlit("\",\"");
    reveal_strlit("\"]");
    reveal_strlit(",");
    let shape = ((front(before, pairs).push('[').push('"') + pairs.last().0).push('"').push(
        ',',
    ).push('"') + pairs.last().1).push('"').push(']');
    if pairs.len() == 1 {
        assert(pairs.last() == pairs[0]);
    }
    assert(opened(before, pairs) =~= shape);
}

proof fn lemma_opened_unique(
    xa: Seq<char>,
    pa: Seq<(Seq<char>, Seq<char>)>,
    xb: Seq<char>,
    pb: Seq<(Seq<char>, Seq<char>)>,
)
    requires
        pairs_plain(pa),
        pairs_plain(pb),
        opened(xa, pa) == opened(xb, pb),
    ensures
        xa == xb,
        pa == pb,
    decreases pa.len(),
{
    let sa = opened(xa, pa);
    let sb = opened(xb, pb);
    if pa.len() == 0 {
        assert(sa =~= xa.push('['));
        if pb.len() == 0 {
            assert(sb =~= xb.push('['));
            lemma_cancel_last(xa, xb, '[');
            assert(pa =~= pb);
        } else {
            lemma_opened_shape(xb, pb);
            assert(sa.last() == '[');
            assert(sb.last() == ']');
            assert(false);
        }
    } else if pb.len() == 0 {
        assert(sb =~= xb.push('['));
        lemma_opened_shape(xa, pa);
        assert(sb.last() == '[');
        assert(sa.last() == ']');
        assert(false);
    } else {
        lemma_opened_shape(xa, pa);
        lemma_opened_shape(xb, pb);
        let fa = front(xa, pa);
        let fb = front(xb, pb);
        let (na, va) = pa.last();
        let (nb, vb) = pb.last();
        assert(plain(pa[pa.len() - 1].0) && plain(pa[pa.len() - 1].1));
        assert(plain(pb[pb.len() - 1].0) && plain(pb[pb.len() - 1].1));
        let ra = (fa.push('[').push('"') + na).push('"').push(',');
        let rb = (fb.push('[').push('"') + nb).push('"').push(',');
        assert(sa.drop_last().drop_last() =~= ra.push('"') + va);
        assert(sb.drop_last().drop_last() =~= rb.push('"') + vb);
        lemma_split_right(ra, va, rb, vb);
        assert(ra.drop_last().drop_last() =~= fa.push('[').push('"') + na);
        assert(rb.drop_last().drop_last() =~= fb.push('[').push('"') + nb);
        lemma_split_right(fa.push('['), na, fb.push('['), nb);
        lemma_cancel_last(fa, fb, '[');
        assert(pa.last() == pb.last());
        if pa.len() == 1 {
            if pb.len() == 1 {
                lemma_cancel_last(xa, xb, '[');
                assert(pa =~= pb);
            } else {
                assert(fa.last() == '[');
                assert(fb.last() == ',');
                assert(false);
            }
        } else if pb.len() == 1 {
            assert(fb.last() == '[');
            assert(fa.last() == ',');
            assert(false);
        } else {
            let da = pa.drop_last();
            let db = pb.drop_last();
            lemma_cancel_last(opened(xa, da), opened(xb, db), ',');
            lemma_opened_unique(xa, da, xb, db);
            assert(pa =~= da.push(pa.last()));
            assert(pb =~= db.push(pb.last()));
        }
    }
}

/// Two encodings with the same document are the same encoding: the document
/// loses nothing of the texts, of the number of headers or of their order.
pub proof fn lemma_document_identifies_encoding(a: CanonicalEncodingView, b: CanonicalEncodingView)
    requires
        encoding_plain(a),
        encoding_plain(b),
        json_text(a) == json_text(b),
    ensures
        a == b,
{
    reveal_strlit("{\"method\":\"");
    reveal_strlit("\",\"version\":\"");
    reveal_strlit("\",\"uri\":\"");
    reveal_strlit("\",\"headers\":");
    reveal_strlit(",\"body\":\"");
    reveal_strlit("\"}");
    reveal_strlit("[");
    reveal_strlit("]");
    let intro = "{\"method\":\""@;
    let to_version = "\",\"version\":\""@;
    let to_uri = "\",\"uri\":\""@;
    let to_headers = "\",\"headers\":"@;
    let to_body = ",\"body\":\""@;
    let close = "\"}"@;
    let ma = Seq::<char>::empty() + intro + a.method;
    let mb = Seq::<char>::empty() + intro + b.method;
    let va = ma + to_version + a.version;
    let vb = mb + to_version + b.version;
    let ua = va + to_uri + a.uri;
    let ub = vb + to_uri + b.uri;
    let ha = opened(ua + to_headers, a.headers).push(']');
    let hb = opened(ub + to_headers, b.headers).push(']');
    assert(json_text(a) =~= ha + to_body + a.body + close);
    assert(json_text(b) =~= hb + to_body + b.body + close);
    lemma_cancel_suffix(ha + to_body + a.body, hb + to_body + b.body, close);
    lemma_field_step(ha, hb, to_body, a.body, b.body);
    lemma_cancel_last(opened(ua + to_headers, a.headers), opened(ub + to_headers, b.headers), ']');
    lemma_opened_unique(ua + to_headers, a.headers, ub + to_headers, b.headers);
    lemma_cancel_suffix(ua, ub, to_headers);
    lemma_field_step(va, vb, to_uri, a.uri, b.uri);
    lemma_field_step(ma, mb, to_version, a.version, b.version);
    lemma_field_step(Seq::<char>::empty(), Seq::<char>::empty(), intro, a.method, b.method);
}

/// Two requests with the same document are the same request, field by field,
/// with the same headers in the same order: the encoding is injective.
pub proof fn lemma_document_identifies_request(a: CapturedRequestView, b: CapturedRequestView)
    requires
        reversible(a),
        reversible(b),
        canonical_json(a) == canonical_json(b),
    ensures
        a == b,
{
    lemma_base64_encoding_is_plain(encoding_of(a));
    lemma_base64_encoding_is_plain(encoding_of(b));
    lemma_document_identifies_encoding(encoding_of(a), encoding_of(b));
    lemma_encoding_identifies_request(encoding_of(a), a, b);
}

} // verus!
