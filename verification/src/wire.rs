//! Transport writer: builds the wire form of an outbound request, one JSON
//! document terminated by a single line feed. The format is fixed: the id, the
//! method name and the method parameters, with every string escaped so that
//! the frame itself can never contain a stray delimiter.

use vstd::prelude::*;
use crate::NL;
use crate::CR;

verus! {

/// Byte value of `"`.
pub const QUOTE: u8 = 34;

/// Byte value of `\\`.
pub const BSLASH: u8 = 92;

/// Byte value of `,`.
pub const COMMA: u8 = 44;

/// Byte value of `}`.
pub const RBRACE: u8 = 125;

/// Byte value of `[`.
pub const LBRACK: u8 = 91;

/// Byte value of `]`.
pub const RBRACK: u8 = 93;

/// One chat message carried in a call's parameters.
pub struct ChatMessage {
    pub role: Vec<u8>,
    pub content: Vec<u8>,
}

/// The parameters of an outbound call.
pub struct SendMessageParams {
    pub provider: Option<Vec<u8>>,
    pub api_key: Vec<u8>,
    pub model: Vec<u8>,
    pub base_url: Option<Vec<u8>>,
    pub messages: Vec<ChatMessage>,
    pub workspace_path: Option<Vec<u8>>,
    pub request_id: Option<Vec<u8>>,
}

/// An outbound request: a correlation id, a method name, and parameters.
/// Immutable once constructed; the id comes from the correlator and is unique
/// for the process lifetime.
pub struct RpcRequest {
    pub id: u64,
    pub method: Vec<u8>,
    pub params: SendMessageParams,
}

/// Hexadecimal digit for a value below sixteen, lower case.
pub open spec fn hex_digit(n: int) -> u8 {
    if n < 10 {
        (48 + n) as u8
    } else {
        (87 + n) as u8
    }
}

/// The escape sequence a byte contributes to a JSON string: quotes and
/// backslashes are escaped, the named control bytes get their short escapes,
/// any other control byte a `\u00..` escape, and everything else passes
/// through unchanged.
pub open spec fn esc_byte(b: u8) -> Seq<u8> {
    if b == QUOTE {
        seq![BSLASH, QUOTE]
    } else if b == BSLASH {
        seq![BSLASH, BSLASH]
    } else if b == 8 {
        seq![BSLASH, 98u8]
    } else if b == 9 {
        seq![BSLASH, 116u8]
    } else if b == NL {
        seq![BSLASH, 110u8]
    } else if b == 12 {
        seq![BSLASH, 102u8]
    } else if b == CR {
        seq![BSLASH, 114u8]
    } else if b < 32 {
        seq![BSLASH, 117u8, 48u8, 48u8, hex_digit(b as int / 16), hex_digit(b as int % 16)]
    } else {
        seq![b]
    }
}

/// A whole byte string escaped for inclusion in a JSON string literal.
pub open spec fn esc(s: Seq<u8>) -> Seq<u8>
    decreases s.len(),
{
    if s.len() == 0 {
        Seq::empty()
    } else {
        esc(s.drop_last()) + esc_byte(s.last())
    }
}

/// Decimal digits of `n`, most significant first.
pub open spec fn dec_digits(n: nat) -> Seq<u8>
    decreases n,
{
    if n < 10 {
        seq![(48 + n) as u8]
    } else {
        dec_digits(n / 10) + seq![(48 + n % 10) as u8]
    }
}

/// The bytes of `{"id":`.
pub open spec fn lit_obj_id() -> Seq<u8> {
    seq![123u8, 34u8, 105u8, 100u8, 34u8, 58u8]
}

fn push_lit_obj_id(out: &mut Vec<u8>)
    ensures
        final(out)@ == old(out)@ + lit_obj_id(),
{
    out.push(123);
    out.push(34);
    out.push(105);
    out.push(100);
    out.push(34);
    out.push(58);
    proof {
        assert(out@ =~= old(out)@ + lit_obj_id());
    }
}

/// The bytes of `,"method":`.
pub open spec fn lit_method() -> Seq<u8> {
    seq![44u8, 34u8, 109u8, 101u8, 116u8, 104u8, 111u8, 100u8, 34u8, 58u8]
}

fn push_lit_method(out: &mut Vec<u8>)
    ensures
        final(out)@ == old(out)@ + lit_method(),
{
    out.push(44);
    out.push(34);
    out.push(109);
    out.push(101);
    out.push(116);
    out.push(104);
    out.push(111);
    out.push(100);
    out.push(34);
    out.push(58);
    proof {
        assert(out@ =~= old(out)@ + lit_method());
    }
}

/// The bytes of `,"params":`.
pub open spec fn lit_params() -> Seq<u8> {
    seq![44u8, 34u8, 112u8, 97u8, 114u8, 97u8, 109u8, 115u8, 34u8, 58u8]
}

fn push_lit_params(out: &mut Vec<u8>)
    ensures
        final(out)@ == old(out)@ + lit_params(),
{
    out.push(44);
    out.push(34);
    out.push(112);
    out.push(97);
    out.push(114);
    out.push(97);
    out.push(109);
    out.push(115);
    out.push(34);
    out.push(58);
    proof {
        assert(out@ =~= old(out)@ + lit_params());
    }
}

/// The bytes of `{"provider":`.
pub open spec fn lit_provider() -> Seq<u8> {
    seq![123u8, 34u8, 112u8, 114u8, 111u8, 118u8, 105u8, 100u8, 101u8, 114u8, 34u8, 58u8]
}

fn push_lit_provider(out: &mut Vec<u8>)
    ensures
        final(out)@ == old(out)@ + lit_provider(),
{
    out.push(123);
    out.push(34);
    out.push(112);
    out.push(114);
    out.push(111);
    out.push(118);
    out.push(105);
    out.push(100);
    out.push(101);
    out.push(114);
    out.push(34);
    out.push(58);
    proof {
        assert(out@ =~= old(out)@ + lit_provider());
    }
}

/// The bytes of `,"apiKey":`.
pub open spec fn lit_api_key() -> Seq<u8> {
    seq![44u8, 34u8, 97u8, 112u8, 105u8, 75u8, 101u8, 121u8, 34u8, 58u8]
}

fn push_lit_api_key(out: &mut Vec<u8>)
    ensures
        final(out)@ == old(out)@ + lit_api_key(),
{
    out.push(44);
    out.push(34);
    out.push(97);
    out.push(112);
    out.push(105);
    out.push(75);
    out.push(101);
    out.push(121);
    out.push(34);
    out.push(58);
    proof {
        assert(out@ =~= old(out)@ + lit_api_key());
    }
}

/// The bytes of `,"model":`.
pub open spec fn lit_model() -> Seq<u8> {
    seq![44u8, 34u8, 109u8, 111u8, 100u8, 101u8, 108u8, 34u8, 58u8]
}

fn push_lit_model(out: &mut Vec<u8>)
    ensures
        final(out)@ == old(out)@ + lit_model(),
{
    out.push(44);
    out.push(34);
    out.push(109);
    out.push(111);
    out.push(100);
    out.push(101);
    out.push(108);
    out.push(34);
    out.push(58);
    proof {
        assert(out@ =~= old(out)@ + lit_model());
    }
}

/// The bytes of `,"baseUrl":`.
pub open spec fn lit_base_url() -> Seq<u8> {
    seq![44u8, 34u8, 98u8, 97u8, 115u8, 101u8, 85u8, 114u8, 108u8, 34u8, 58u8]
}

fn push_lit_base_url(out: &mut Vec<u8>)
    ensures
        final(out)@ == old(out)@ + lit_base_url(),
{
    out.push(44);
    out.push(34);
    out.push(98);
    out.push(97);
    out.push(115);
    out.push(101);
    out.push(85);
    out.push(114);
    out.push(108);
    out.push(34);
    out.push(58);
    proof {
        assert(out@ =~= old(out)@ + lit_base_url());
    }
}

/// The bytes of `,"messages":`.
pub open spec fn lit_messages() -> Seq<u8> {
    seq![44u8, 34u8, 109u8, 101u8, 115u8, 115u8, 97u8, 103u8, 101u8, 115u8, 34u8, 58u8]
}

fn push_lit_messages(out: &mut Vec<u8>)
    ensures
        final(out)@ == old(out)@ + lit_messages(),
{
    out.push(44);
    out.push(34);
    out.push(109);
    out.push(101);
    out.push(115);
    out.push(115);
    out.push(97);
    out.push(103);
    out.push(101);
    out.push(115);
    out.push(34);
    out.push(58);
    proof {
        assert(out@ =~= old(out)@ + lit_messages());
    }
}

/// The bytes of `,"workspacePath":`.
pub open spec fn lit_workspace_path() -> Seq<u8> {
    seq![44u8, 34u8, 119u8, 111u8, 114u8, 107u8, 115u8, 112u8, 97u8, 99u8, 101u8, 80u8, 97u8, 116u8, 104u8, 34u8, 58u8]
}

fn push_lit_workspace_path(out: &mut Vec<u8>)
    ensures
        final(out)@ == old(out)@ + lit_workspace_path(),
{
    out.push(44);
    out.push(34);
    out.push(119);
    out.push(111);
    out.push(114);
    out.push(107);
    out.push(115);
    out.push(112);
    out.push(97);
    out.push(99);
    out.push(101);
    out.push(80);
    out.push(97);
    out.push(116);
    out.push(104);
    out.push(34);
    out.push(58);
    proof {
        assert(out@ =~= old(out)@ + lit_workspace_path());
    }
}

/// The bytes of `,"requestId":`.
pub open spec fn lit_request_id() -> Seq<u8> {
    seq![44u8, 34u8, 114u8, 101u8, 113u8, 117u8, 101u8, 115u8, 116u8, 73u8, 100u8, 34u8, 58u8]
}

fn push_lit_request_id(out: &mut Vec<u8>)
    ensures
        final(out)@ == old(out)@ + lit_request_id(),
{
    out.push(44);
    out.push(34);
    out.push(114);
    out.push(101);
    out.push(113);
    out.push(117);
    out.push(101);
    out.push(115);
    out.push(116);
    out.push(73);
    out.push(100);
    out.push(34);
    out.push(58);
    proof {
        assert(out@ =~= old(out)@ + lit_request_id());
    }
}

/// The bytes of `null`.
pub open spec fn lit_null() -> Seq<u8> {
    seq![110u8, 117u8, 108u8, 108u8]
}

fn push_lit_null(out: &mut Vec<u8>)
    ensures
        final(out)@ == old(out)@ + lit_null(),
{
    out.push(110);
    out.push(117);
    out.push(108);
    out.push(108);
    proof {
        assert(out@ =~= old(out)@ + lit_null());
    }
}

/// The bytes of `{"role":`.
pub open spec fn lit_role() -> Seq<u8> {
    seq![123u8, 34u8, 114u8, 111u8, 108u8, 101u8, 34u8, 58u8]
}

fn push_lit_role(out: &mut Vec<u8>)
    ensures
        final(out)@ == old(out)@ + lit_role(),
{
    out.push(123);
    out.push(34);
    out.push(114);
    out.push(111);
    out.push(108);
    out.push(101);
    out.push(34);
    out.push(58);
    proof {
        assert(out@ =~= old(out)@ + lit_role());
    }
}

/// The bytes of `,"content":`.
pub open spec fn lit_content() -> Seq<u8> {
    seq![44u8, 34u8, 99u8, 111u8, 110u8, 116u8, 101u8, 110u8, 116u8, 34u8, 58u8]
}

fn push_lit_content(out: &mut Vec<u8>)
    ensures
        final(out)@ == old(out)@ + lit_content(),
{
    out.push(44);
    out.push(34);
    out.push(99);
    out.push(111);
    out.push(110);
    out.push(116);
    out.push(101);
    out.push(110);
    out.push(116);
    out.push(34);
    out.push(58);
    proof {
        assert(out@ =~= old(out)@ + lit_content());
    }
}

fn push_escaped(out: &mut Vec<u8>, s: &Vec<u8>)
    ensures
        final(out)@ == old(out)@ + esc(s@),
{
    let ghost base = out@;
    let mut i: usize = 0;
    while i < s.len()
        invariant
            i <= s@.len(),
            out@ == base + esc(s@.take(i as int)),
        decreases s@.len() - i,
    {
        let b = s[i];
        if b == QUOTE {
            out.push(BSLASH);
            out.push(QUOTE);
        } else if b == BSLASH {
            out.push(BSLASH);
            out.push(BSLASH);
        } else if b == 8 {
            out.push(BSLASH);
            out.push(98);
        } else if b == 9 {
            out.push(BSLASH);
            out.push(116);
        } else if b == NL {
            out.push(BSLASH);
            out.push(110);
        } else if b == 12 {
            out.push(BSLASH);
            out.push(102);
        } else if b == CR {
            out.push(BSLASH);
            out.push(114);
        } else if b < 32 {
            out.push(BSLASH);
            out.push(117);
            out.push(48);
            out.push(48);
            let hi = b / 16;
            let lo = b % 16;
            out.push(if hi < 10 { 48 + hi } else { 87 + hi });
            out.push(if lo < 10 { 48 + lo } else { 87 + lo });
        } else {
            out.push(b);
        }
        proof {
            assert(s@.take(i as int + 1).drop_last() =~= s@.take(i as int));
            assert(s@.take(i as int + 1).last() == s@[i as int]);
            assert(out@ =~= base + esc(s@.take(i as int + 1)));
        }
        i += 1;
    }
    proof {
        assert(s@.take(s@.len() as int) =~= s@);
    }
}

/// Digits of `s` written backwards.
spec fn rev(s: Seq<u8>) -> Seq<u8>
    decreases s.len(),
{
    if s.len() == 0 {
        Seq::empty()
    } else {
        seq![s.last()] + rev(s.drop_last())
    }
}

proof fn lemma_rev_index(s: Seq<u8>)
    ensures
        rev(s).len() == s.len(),
        forall|j: int| 0 <= j < s.len() ==> rev(s)[j] == s[s.len() - 1 - j],
    decreases s.len(),
{
    if s.len() > 0 {
        lemma_rev_index(s.drop_last());
    }
}

fn push_u64(out: &mut Vec<u8>, x: u64)
    ensures
        final(out)@ == old(out)@ + dec_digits(x as nat),
{
    let ghost base = out@;
    let mut tmp: Vec<u8> = Vec::new();
    let mut n = x;
    while n >= 10
        invariant
            dec_digits(x as nat) == dec_digits(n as nat) + rev(tmp@),
        decreases n,
    {
        let ghost t0 = tmp@;
        tmp.push(48 + (n % 10) as u8);
        proof {
            assert(tmp@.drop_last() =~= t0);
            assert(rev(tmp@) =~= seq![(48 + n as nat % 10) as u8] + rev(t0));
            assert(dec_digits(n as nat) + rev(t0) =~= dec_digits(n as nat / 10) + rev(tmp@));
        }
        n = n / 10;
    }
    let ghost t1 = tmp@;
    tmp.push(48 + (n % 10) as u8);
    proof {
        assert(tmp@.drop_last() =~= t1);
        assert((48 + n as nat % 10) as u8 == (48 + n as nat) as u8);
        assert(dec_digits(x as nat) =~= rev(tmp@));
        lemma_rev_index(tmp@);
    }
    let mut j: usize = 0;
    let len = tmp.len();
    while j < len
        invariant
            j <= len,
            len == tmp@.len(),
            rev(tmp@).len() == tmp@.len(),
            forall|k: int| 0 <= k < tmp@.len() ==> rev(tmp@)[k] == tmp@[tmp@.len() - 1 - k],
            out@ == base + rev(tmp@).take(j as int),
        decreases len - j,
    {
        out.push(tmp[len - 1 - j]);
        proof {
            assert(rev(tmp@).take(j as int + 1) =~= rev(tmp@).take(j as int).push(
                rev(tmp@)[j as int],
            ));
        }
        j += 1;
    }
    proof {
        assert(rev(tmp@).take(tmp@.len() as int) =~= rev(tmp@));
    }
}

/// A JSON string literal: quoted and escaped.
pub open spec fn spec_enc_str(s: Seq<u8>) -> Seq<u8> {
    seq![QUOTE] + esc(s) + seq![QUOTE]
}

/// View of an optional byte string.
pub open spec fn opt_bytes_view(o: Option<Vec<u8>>) -> Option<Seq<u8>> {
    match o {
        Option::None => Option::None,
        Option::Some(v) => Option::Some(v@),
    }
}

/// An optional field: `null` when absent, a string literal when present.
pub open spec fn spec_enc_opt(o: Option<Seq<u8>>) -> Seq<u8> {
    match o {
        Option::None => lit_null(),
        Option::Some(s) => spec_enc_str(s),
    }
}

/// One chat message as a JSON object.
pub open spec fn spec_enc_msg(m: ChatMessage) -> Seq<u8> {
    lit_role() + spec_enc_str(m.role@) + lit_content() + spec_enc_str(m.content@) + seq![RBRACE]
}

/// The second and later messages of the list, each preceded by a comma.
pub open spec fn spec_enc_msgs_rest(ms: Seq<ChatMessage>) -> Seq<u8>
    decreases ms.len(),
{
    if ms.len() == 0 {
        Seq::empty()
    } else {
        spec_enc_msgs_rest(ms.drop_last()) + seq![COMMA] + spec_enc_msg(ms.last())
    }
}

/// The message list as a JSON array.
pub open spec fn spec_enc_msgs(ms: Seq<ChatMessage>) -> Seq<u8> {
    if ms.len() == 0 {
        seq![LBRACK, RBRACK]
    } else {
        seq![LBRACK] + spec_enc_msg(ms[0]) + spec_enc_msgs_rest(ms.skip(1)) + seq![RBRACK]
    }
}

/// The parameter object, fields in wire order.
pub open spec fn spec_enc_params(p: SendMessageParams) -> Seq<u8> {
    lit_provider() + spec_enc_opt(opt_bytes_view(p.provider)) + lit_api_key() + spec_enc_str(
        p.api_key@,
    ) + lit_model() + spec_enc_str(p.model@) + lit_base_url() + spec_enc_opt(
        opt_bytes_view(p.base_url),
    ) + lit_messages() + spec_enc_msgs(p.messages@) + lit_workspace_path() + spec_enc_opt(
        opt_bytes_view(p.workspace_path),
    ) + lit_request_id() + spec_enc_opt(opt_bytes_view(p.request_id)) + seq![RBRACE]
}

/// The whole request document.
pub open spec fn spec_enc_request(r: RpcRequest) -> Seq<u8> {
    lit_obj_id() + dec_digits(r.id as nat) + lit_method() + spec_enc_str(r.method@) + lit_params()
        + spec_enc_params(r.params) + seq![RBRACE]
}

/// The wire frame: the document followed by the line-feed terminator.
pub open spec fn spec_frame(r: RpcRequest) -> Seq<u8> {
    spec_enc_request(r) + seq![NL]
}

fn push_str_enc(out: &mut Vec<u8>, s: &Vec<u8>)
    ensures
        final(out)@ == old(out)@ + spec_enc_str(s@),
{
    out.push(QUOTE);
    push_escaped(out, s);
    out.push(QUOTE);
    proof {
        assert(out@ =~= old(out)@ + spec_enc_str(s@));
    }
}

fn push_opt(out: &mut Vec<u8>, o: &Option<Vec<u8>>)
    ensures
        final(out)@ == old(out)@ + spec_enc_opt(opt_bytes_view(*o)),
{
    match o {
        Option::None => push_lit_null(out),
        Option::Some(v) => push_str_enc(out, v),
    }
}

fn push_msg(out: &mut Vec<u8>, m: &ChatMessage)
    ensures
        final(out)@ == old(out)@ + spec_enc_msg(*m),
{
    push_lit_role(out);
    push_str_enc(out, &m.role);
    push_lit_content(out);
    push_str_enc(out, &m.content);
    out.push(RBRACE);
    proof {
        assert(out@ =~= old(out)@ + spec_enc_msg(*m));
    }
}

fn push_msgs(out: &mut Vec<u8>, ms: &Vec<ChatMessage>)
    ensures
        final(out)@ == old(out)@ + spec_enc_msgs(ms@),
{
    let ghost base = out@;
    out.push(LBRACK);
    if ms.len() == 0 {
        out.push(RBRACK);
        proof {
            assert(out@ =~= base + spec_enc_msgs(ms@));
        }
        return ;
    }
    push_msg(out, &ms[0]);
    let mut j: usize = 1;
    proof {
        assert(ms@.skip(1).take(0) =~= Seq::<ChatMessage>::empty());
        assert(out@ =~= base + seq![LBRACK] + spec_enc_msg(ms@[0]) + spec_enc_msgs_rest(
            ms@.skip(1).take(0),
        ));
    }
    while j < ms.len()
        invariant
            1 <= j <= ms@.len(),
            out@ == base + seq![LBRACK] + spec_enc_msg(ms@[0]) + spec_enc_msgs_rest(
                ms@.skip(1).take(j - 1),
            ),
        decreases ms@.len() - j,
    {
        out.push(COMMA);
        push_msg(out, &ms[j]);
        proof {
            assert(ms@.skip(1).take(j as int).drop_last() =~= ms@.skip(1).take(j - 1));
            assert(ms@.skip(1).take(j as int).last() == ms@[j as int]);
            assert(out@ =~= base + seq![LBRACK] + spec_enc_msg(ms@[0]) + spec_enc_msgs_rest(
                ms@.skip(1).take(j as int),
            ));
        }
        j += 1;
    }
    out.push(RBRACK);
    proof {
        assert(ms@.skip(1).take(ms@.len() - 1) =~= ms@.skip(1));
        assert(out@ =~= base + spec_enc_msgs(ms@));
    }
}

fn push_params(out: &mut Vec<u8>, p: &SendMessageParams)
    ensures
        final(out)@ == old(out)@ + spec_enc_params(*p),
{
    push_lit_provider(out);
    push_opt(out, &p.provider);
    push_lit_api_key(out);
    push_str_enc(out, &p.api_key);
    push_lit_model(out);
    push_str_enc(out, &p.model);
    push_lit_base_url(out);
    push_opt(out, &p.base_url);
    push_lit_messages(out);
    push_msgs(out, &p.messages);
    push_lit_workspace_path(out);
    push_opt(out, &p.workspace_path);
    push_lit_request_id(out);
    push_opt(out, &p.request_id);
    out.push(RBRACE);
    proof {
        assert(out@ =~= old(out)@ + spec_enc_params(*p));
    }
}

/// Serialize a request to its wire document, without the terminator.
pub fn encode_request(req: &RpcRequest) -> (out: Vec<u8>)
    ensures
        out@ == spec_enc_request(*req),
{
    let mut out: Vec<u8> = Vec::new();
    push_lit_obj_id(&mut out);
    push_u64(&mut out, req.id);
    push_lit_method(&mut out);
    push_str_enc(&mut out, &req.method);
    push_lit_params(&mut out);
    push_params(&mut out, &req.params);
    out.push(RBRACE);
    proof {
        assert(out@ =~= spec_enc_request(*req));
    }
    out
}

/// Serialize a request and append the single line-feed terminator: the exact
/// bytes to hand to the outbound pipe as one atomic write.
pub fn frame_request(req: &RpcRequest) -> (out: Vec<u8>)
    ensures
        out@ == spec_frame(*req),
{
    let mut out = encode_request(req);
    out.push(NL);
    proof {
        assert(out@ =~= spec_frame(*req));
    }
    out
}

/// No line feed anywhere in `s`.
pub open spec fn nl_free(s: Seq<u8>) -> bool {
    forall|i: int| 0 <= i < s.len() ==> s[i] != NL
}

proof fn lemma_nl_free_concat(a: Seq<u8>, b: Seq<u8>)
    requires
        nl_free(a),
        nl_free(b),
    ensures
        nl_free(a + b),
{
    assert forall|i: int| 0 <= i < (a + b).len() implies (a + b)[i] != NL by {
        if i < a.len() {
            assert((a + b)[i] == a[i]);
        } else {
            assert((a + b)[i] == b[i - a.len()]);
        }
    }
}

proof fn lemma_esc_nl_free(s: Seq<u8>)
    ensures
        nl_free(esc(s)),
    decreases s.len(),
{
    if s.len() > 0 {
        lemma_esc_nl_free(s.drop_last());
        assert(nl_free(esc_byte(s.last())));
        lemma_nl_free_concat(esc(s.drop_last()), esc_byte(s.last()));
    }
}

proof fn lemma_dec_digits_nl_free(n: nat)
    ensures
        nl_free(dec_digits(n)),
    decreases n,
{
    if n >= 10 {
        lemma_dec_digits_nl_free(n / 10);
        lemma_nl_free_concat(dec_digits(n / 10), seq![(48 + n % 10) as u8]);
    }
}

proof fn lemma_enc_str_nl_free(s: Seq<u8>)
    ensures
        nl_free(spec_enc_str(s)),
{
    lemma_esc_nl_free(s);
    lemma_nl_free_concat(seq![QUOTE], esc(s));
    lemma_nl_free_concat(seq![QUOTE] + esc(s), seq![QUOTE]);
}

proof fn lemma_enc_opt_nl_free(o: Option<Seq<u8>>)
    ensures
        nl_free(spec_enc_opt(o)),
{
    match o {
        Option::None => {
        },
        Option::Some(s) => {
            lemma_enc_str_nl_free(s);
        },
    }
}

proof fn lemma_enc_msg_nl_free(m: ChatMessage)
    ensures
        nl_free(spec_enc_msg(m)),
{
    lemma_enc_str_nl_free(m.role@);
    lemma_enc_str_nl_free(m.content@);
    lemma_nl_free_concat(lit_role(), spec_enc_str(m.role@));
    lemma_nl_free_concat(lit_role() + spec_enc_str(m.role@), lit_content());
    lemma_nl_free_concat(
        lit_role() + spec_enc_str(m.role@) + lit_content(),
        spec_enc_str(m.content@),
    );
    lemma_nl_free_concat(
        lit_role() + spec_enc_str(m.role@) + lit_content() + spec_enc_str(m.content@),
        seq![RBRACE],
    );
}

proof fn lemma_enc_msgs_rest_nl_free(ms: Seq<ChatMessage>)
    ensures
        nl_free(spec_enc_msgs_rest(ms)),
    decreases ms.len(),
{
    if ms.len() > 0 {
        lemma_enc_msgs_rest_nl_free(ms.drop_last());
        lemma_enc_msg_nl_free(ms.last());
        lemma_nl_free_concat(spec_enc_msgs_rest(ms.drop_last()), seq![COMMA]);
        lemma_nl_free_concat(
            spec_enc_msgs_rest(ms.drop_last()) + seq![COMMA],
            spec_enc_msg(ms.last()),
        );
    }
}

proof fn lemma_enc_msgs_nl_free(ms: Seq<ChatMessage>)
    ensures
        nl_free(spec_enc_msgs(ms)),
{
    if ms.len() > 0 {
        lemma_enc_msg_nl_free(ms[0]);
        lemma_enc_msgs_rest_nl_free(ms.skip(1));
        lemma_nl_free_concat(seq![LBRACK], spec_enc_msg(ms[0]));
        lemma_nl_free_concat(seq![LBRACK] + spec_enc_msg(ms[0]), spec_enc_msgs_rest(ms.skip(1)));
        lemma_nl_free_concat(
            seq![LBRACK] + spec_enc_msg(ms[0]) + spec_enc_msgs_rest(ms.skip(1)),
            seq![RBRACK],
        );
    }
}

proof fn lemma_enc_params_nl_free(p: SendMessageParams)
    ensures
        nl_free(spec_enc_params(p)),
{
    lemma_enc_opt_nl_free(opt_bytes_view(p.provider));
    lemma_enc_str_nl_free(p.api_key@);
    lemma_enc_str_nl_free(p.model@);
    lemma_enc_opt_nl_free(opt_bytes_view(p.base_url));
    lemma_enc_msgs_nl_free(p.messages@);
    lemma_enc_opt_nl_free(opt_bytes_view(p.workspace_path));
    lemma_enc_opt_nl_free(opt_bytes_view(p.request_id));
    assert forall|i: int| 0 <= i < spec_enc_params(p).len() implies spec_enc_params(p)[i] != NL by {
        let s1 = lit_provider();
        let s2 = spec_enc_opt(opt_bytes_view(p.provider));
        let s3 = lit_api_key();
        let s4 = spec_enc_str(p.api_key@);
        let s5 = lit_model();
        let s6 = spec_enc_str(p.model@);
        let s7 = lit_base_url();
        let s8 = spec_enc_opt(opt_bytes_view(p.base_url));
        let s9 = lit_messages();
        let s10 = spec_enc_msgs(p.messages@);
        let s11 = lit_workspace_path();
        let s12 = spec_enc_opt(opt_bytes_view(p.workspace_path));
        let s13 = lit_request_id();
        let s14 = spec_enc_opt(opt_bytes_view(p.request_id));
        lemma_nl_free_concat(s1, s2);
        lemma_nl_free_concat(s1 + s2, s3);
        lemma_nl_free_concat(s1 + s2 + s3, s4);
        lemma_nl_free_concat(s1 + s2 + s3 + s4, s5);
        lemma_nl_free_concat(s1 + s2 + s3 + s4 + s5, s6);
        lemma_nl_free_concat(s1 + s2 + s3 + s4 + s5 + s6, s7);
        lemma_nl_free_concat(s1 + s2 + s3 + s4 + s5 + s6 + s7, s8);
        lemma_nl_free_concat(s1 + s2 + s3 + s4 + s5 + s6 + s7 + s8, s9);
        lemma_nl_free_concat(s1 + s2 + s3 + s4 + s5 + s6 + s7 + s8 + s9, s10);
        lemma_nl_free_concat(s1 + s2 + s3 + s4 + s5 + s6 + s7 + s8 + s9 + s10, s11);
        lemma_nl_free_concat(s1 + s2 + s3 + s4 + s5 + s6 + s7 + s8 + s9 + s10 + s11, s12);
        lemma_nl_free_concat(s1 + s2 + s3 + s4 + s5 + s6 + s7 + s8 + s9 + s10 + s11 + s12, s13);
        lemma_nl_free_concat(
            s1 + s2 + s3 + s4 + s5 + s6 + s7 + s8 + s9 + s10 + s11 + s12 + s13,
            s14,
        );
        lemma_nl_free_concat(
            s1 + s2 + s3 + s4 + s5 + s6 + s7 + s8 + s9 + s10 + s11 + s12 + s13 + s14,
            seq![RBRACE],
        );
    }
}

/// The serialized document never holds the frame delimiter: every byte of
/// every string is escaped below it, so one request is always one frame.
pub proof fn lemma_enc_request_nl_free(r: RpcRequest)
    ensures
        nl_free(spec_enc_request(r)),
{
    lemma_dec_digits_nl_free(r.id as nat);
    lemma_enc_str_nl_free(r.method@);
    lemma_enc_params_nl_free(r.params);
    let s1 = lit_obj_id();
    let s2 = dec_digits(r.id as nat);
    let s3 = lit_method();
    let s4 = spec_enc_str(r.method@);
    let s5 = lit_params();
    let s6 = spec_enc_params(r.params);
    lemma_nl_free_concat(s1, s2);
    lemma_nl_free_concat(s1 + s2, s3);
    lemma_nl_free_concat(s1 + s2 + s3, s4);
    lemma_nl_free_concat(s1 + s2 + s3 + s4, s5);
    lemma_nl_free_concat(s1 + s2 + s3 + s4 + s5, s6);
    lemma_nl_free_concat(s1 + s2 + s3 + s4 + s5 + s6, seq![RBRACE]);
}

/// Round-trip framing: a request's frame fed to the line demultiplexer comes
/// back as exactly one line — the serialized document, unchanged — and leaves
/// nothing buffered.
pub proof fn lemma_frame_is_one_line(r: RpcRequest)
    ensures
        crate::demux::complete_lines(spec_frame(r)) == seq![spec_enc_request(r)],
        crate::demux::residual(spec_frame(r)) == Seq::<u8>::empty(),
{
    let e = spec_enc_request(r);
    let frame = spec_frame(r);
    lemma_enc_request_nl_free(r);
    assert(frame[e.len() as int] == NL);
    crate::demux::lemma_first_nl_is(frame, e.len() as int);
    assert(frame.take(e.len() as int) =~= e);
    assert(e.last() == RBRACE);
    assert(crate::demux::strip_cr(e) == e);
    let tail = frame.skip(e.len() as int + 1);
    assert(tail =~= Seq::<u8>::empty());
    assert(!tail.contains(NL));
    assert(crate::demux::complete_lines(tail) =~~= Seq::<Seq<u8>>::empty());
    assert(crate::demux::residual(tail) == tail);
    assert(crate::demux::complete_lines(frame) =~~= seq![e]);
    assert(crate::demux::residual(frame) =~= Seq::<u8>::empty());
}

} // verus!
