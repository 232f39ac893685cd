//! The platform-to-tool token.
//!
//! The platform mints a short-lived token; a layer server validates it offline
//! with a configured shared key. A token is `<claims>.<signature>`, both in
//! URL-safe base64 without padding: the claims are JSON, and the signature is
//! the HMAC-SHA256 of the encoded claims under the shared key.
//!
//! Because the key is shared, a layer server's port must be bound to localhost,
//! so that only the co-located platform can reach it.
use crate::json::{compact, to_text, Json, JsonView};
use crate::text::{decimal_signed, same, split_at_first, split_once, stripped, write_decimal_signed};
use base64::Engine;
use hmac::Mac;
use vstd::prelude::*;
use vstd::string::*;
use vstd::utf8::encode_utf8;

verus! {

/// What a token says of its bearer.
#[derive(Debug, Clone, PartialEq, Eq)]
pub struct Claims {
    /// Cloud workspace id.
    pub workspace: String,
    /// Project id within the workspace (optional for workspace-scoped calls).
    pub project: Option<String>,
    /// Tool this token is audience-scoped to; must equal the service's tool.
    pub tool: String,
    /// Unix-seconds expiry.
    pub exp: i64,
}

/// What [`Claims`] stand for.
pub struct ClaimsView {
    pub workspace: Seq<char>,
    pub project: Option<Seq<char>>,
    pub tool: Seq<char>,
    pub exp: i64,
}

impl View for Claims {
    type V = ClaimsView;

    open spec fn view(&self) -> ClaimsView {
        ClaimsView {
            workspace: self.workspace@,
            project: match self.project {
                Some(p) => Some(p@),
                None => None,
            },
            tool: self.tool@,
            exp: self.exp,
        }
    }
}

/// What optional claims stand for.
pub open spec fn claims_view(claims: Option<Claims>) -> Option<ClaimsView> {
    match claims {
        Some(c) => Some(c@),
        None => None,
    }
}

// ── Encoding and signing ────────────────────────────────────────────────

/// What `base64` writes for the bytes: URL-safe alphabet, no padding.
pub uninterp spec fn base64_text(bytes: Seq<u8>) -> Seq<char>;

/// What `base64` reads from the text: URL-safe alphabet, no padding.
pub uninterp spec fn base64_bytes(text: Seq<char>) -> Option<Seq<u8>>;

/// The URL-safe base64 alphabet.
pub open spec fn base64_char(c: char) -> bool {
    'A' <= c <= 'Z' || 'a' <= c <= 'z' || '0' <= c <= '9' || c == '-' || c == '_'
}

/// `URL_SAFE_NO_PAD.encode` of the crate `base64`: a function of the bytes
/// alone, in the URL-safe alphabet, that decoding undoes.
#[verifier::external_body]
fn encode(bytes: &[u8]) -> (r: String)
    ensures
        r@ == base64_text(bytes@),
        base64_bytes(r@) == Some(bytes@),
        forall|i: int| 0 <= i < r@.len() ==> base64_char(#[trigger] r@[i]),
{
    base64::engine::general_purpose::URL_SAFE_NO_PAD.encode(bytes)
}

/// `URL_SAFE_NO_PAD.decode` of the crate `base64`: a function of the text alone;
/// its error is dropped.
#[verifier::external_body]
fn decode(text: &str) -> (r: Option<Vec<u8>>)
    ensures
        match r {
            Some(bytes) => base64_bytes(text@) == Some(bytes@),
            None => base64_bytes(text@) is None,
        },
{
    base64::engine::general_purpose::URL_SAFE_NO_PAD.decode(text).ok()
}

/// The HMAC-SHA256 of a message under a key.
pub uninterp spec fn hmac_sha256(key: Seq<u8>, message: Seq<u8>) -> Seq<u8>;

/// `Hmac<Sha256>` of the crates `hmac` and `sha2`, up to `finalize`: the tag of
/// the message under the key, of any length, is a function of the two alone and
/// is 32 bytes long.
#[verifier::external_body]
fn sign(key: &[u8], message: &[u8]) -> (tag: Vec<u8>)
    ensures
        tag@ == hmac_sha256(key@, message@),
        tag@.len() == 32,
{
    let mut mac = hmac::Hmac::<sha2::Sha256>::new_from_slice(key).expect("HMAC accepts any key length");
    mac.update(message);
    mac.finalize().into_bytes().to_vec()
}

/// `Hmac<Sha256>` of the crates `hmac` and `sha2`, up to `verify_slice`: whether
/// `tag` is the whole tag of the message under the key. The comparison takes
/// constant time.
#[verifier::external_body]
fn is_signed(key: &[u8], message: &[u8], tag: &[u8]) -> (r: bool)
    ensures
        r == (tag@ == hmac_sha256(key@, message@)),
{
    let mut mac = hmac::Hmac::<sha2::Sha256>::new_from_slice(key).expect("HMAC accepts any key length");
    mac.update(message);
    mac.verify_slice(tag).is_ok()
}

// ── Tokens ──────────────────────────────────────────────────────────────

/// The JSON text of claims whose texts are written as JSON already: the four fields
/// in the order in which they are declared, without white space.
pub open spec fn framed_claims(
    workspace: Seq<char>,
    project: Option<Seq<char>>,
    tool: Seq<char>,
    exp: i64,
) -> Seq<char> {
    "{\"workspace\":"@ + workspace + ",\"project\":"@ + (match project {
        Some(project) => project,
        None => "null"@,
    }) + ",\"tool\":"@ + tool + ",\"exp\":"@ + decimal_signed(exp as int) + "}"@
}

/// The JSON text of claims.
pub open spec fn claims_json(claims: ClaimsView) -> Seq<char> {
    framed_claims(
        compact(JsonView::Str(claims.workspace)),
        match claims.project {
            Some(project) => Some(compact(JsonView::Str(project))),
            None => None,
        },
        compact(JsonView::Str(claims.tool)),
        claims.exp,
    )
}

/// The token for a payload.
pub open spec fn token_for(secret: Seq<u8>, payload: Seq<u8>) -> Seq<char> {
    let claims = base64_text(payload);
    claims + "."@ + base64_text(hmac_sha256(secret, encode_utf8(claims)))
}

/// The payload of a token that is signed under the secret; `None` for any other
/// text.
pub open spec fn signed_payload(secret: Seq<u8>, token: Seq<char>) -> Option<Seq<u8>> {
    match split_at_first(token, '.') {
        None => None,
        Some((claims, signature)) => match base64_bytes(signature) {
            None => None,
            Some(tag) => if tag == hmac_sha256(secret, encode_utf8(claims)) {
                base64_bytes(claims)
            } else {
                None
            },
        },
    }
}

/// Claims that are not expired at `now` and are meant for `tool`.
pub open spec fn accepted(
    claims: Option<ClaimsView>,
    tool: Seq<char>,
    now: i64,
) -> Option<ClaimsView> {
    match claims {
        Some(c) => if c.exp < now || c.tool != tool {
            None
        } else {
            Some(c)
        },
        None => None,
    }
}

/// The claims that a token stands for, with `meaning` saying what claims a payload
/// holds: signed under the secret, not expired and meant for the tool.
pub open spec fn verified(
    secret: Seq<u8>,
    tool: Seq<char>,
    now: i64,
    token: Seq<char>,
    meaning: spec_fn(Seq<u8>) -> Option<ClaimsView>,
) -> Option<ClaimsView> {
    match signed_payload(secret, token) {
        Some(payload) => accepted(meaning(payload), tool, now),
        None => None,
    }
}

/// `read` finds in every payload the claims that `meaning` says it holds.
pub open spec fn reads_as<D: Fn(Vec<u8>) -> Option<Claims>>(
    read: D,
    meaning: spec_fn(Seq<u8>) -> Option<ClaimsView>,
) -> bool {
    forall|payload: Vec<u8>, claims: Option<Claims>|
        call_ensures(read, (payload,), claims) ==> claims_view(claims) == meaning(payload@)
}

/// `claims` is what a token may verify to when `read` looks at the payload: nothing
/// unless the token is signed, else what passes of the claims that were read.
pub open spec fn may_verify<D: Fn(Vec<u8>) -> Option<Claims>>(
    secret: Seq<u8>,
    tool: Seq<char>,
    now: i64,
    token: Seq<char>,
    read: D,
    claims: Option<ClaimsView>,
) -> bool {
    match signed_payload(secret, token) {
        None => claims is None,
        Some(bytes) => exists|payload: Vec<u8>, found: Option<Claims>|
            payload@ == bytes && #[trigger] call_ensures(read, (payload,), found) && claims
                == accepted(claims_view(found), tool, now),
    }
}

/// Puts claims together from texts that are written as JSON already.
pub fn frame_claims(workspace: &str, project: Option<String>, tool: &str, exp: i64) -> (r: String)
    ensures
        r@ == framed_claims(workspace@, crate::ai::text_view(project), tool@, exp),
{
    let mut out: String = "{\"workspace\":".to_owned();
    out.append(workspace);
    out.append(",\"project\":");
    match &project {
        Some(project) => {
            out.append(project.as_str());
        },
        None => {
            out.append("null");
        },
    }
    out.append(",\"tool\":");
    out.append(tool);
    out.append(",\"exp\":");
    out.append(write_decimal_signed(exp).as_str());
    out.append("}");
    out
}

/// Writes claims as JSON.
pub fn write_claims(claims: &Claims) -> (r: String)
    ensures
        r@ == claims_json(claims@),
{
    let workspace: String = to_text(&Json::string(claims.workspace.as_str()));
    let project: Option<String> = match &claims.project {
        Some(project) => Some(to_text(&Json::string(project.as_str()))),
        None => None,
    };
    let tool: String = to_text(&Json::string(claims.tool.as_str()));
    frame_claims(workspace.as_str(), project, tool.as_str(), claims.exp)
}

/// Mints a token. Opened under the same secret it gives back the claims that
/// went in, as JSON.
pub fn mint(secret: &[u8], claims: &Claims) -> (r: String)
    ensures
        r@ == token_for(secret@, encode_utf8(claims_json(claims@))),
        signed_payload(secret@, r@) == Some(encode_utf8(claims_json(claims@))),
{
    let json: String = write_claims(claims);
    let body: String = encode(json.as_str().as_bytes());
    let tag: Vec<u8> = sign(secret, body.as_str().as_bytes());
    let signature: String = encode(tag.as_slice());
    let mut out: String = body.clone();
    out.append(".");
    out.append(signature.as_str());
    proof {
        reveal_strlit(".");
        assert("."@ =~= seq!['.']);
        crate::text::law_split_undoes_join(body@, '.', signature@);
    }
    out
}

/// Checks the signature of a token and hands out the payload that it signs.
/// Signature comparison is constant-time.
pub fn open_token(secret: &[u8], token: &str) -> (r: Option<Vec<u8>>)
    ensures
        match r {
            Some(payload) => signed_payload(secret@, token@) == Some(payload@),
            None => signed_payload(secret@, token@) is None,
        },
{
    let (claims, signature): (&str, &str) = match split_once(token, '.') {
        Some(parts) => parts,
        None => {
            return None;
        },
    };
    let tag: Vec<u8> = match decode(signature) {
        Some(tag) => tag,
        None => {
            return None;
        },
    };
    if !is_signed(secret, claims.as_bytes(), tag.as_slice()) {
        return None;
    }
    decode(claims)
}

/// Lets claims pass that are not expired at `now` and are meant for `tool`.
pub fn accept(claims: Option<Claims>, tool: &str, now: i64) -> (r: Option<Claims>)
    ensures
        claims_view(r) == accepted(claims_view(claims), tool@, now),
{
    match claims {
        Some(c) => if c.exp < now || !same(c.tool.as_str(), tool) {
            None
        } else {
            Some(c)
        },
        None => None,
    }
}

/// Validates signature, expiry and audience of a token. `now` is unix-seconds;
/// `read` turns the JSON payload of a signed token into claims, or into nothing
/// when it is malformed, and sees no other payload.
pub fn verify<D: Fn(Vec<u8>) -> Option<Claims>>(
    secret: &[u8],
    expected_tool: &str,
    now: i64,
    token: &str,
    read: D,
) -> (r: Option<Claims>)
    requires
        forall|payload: Vec<u8>| call_requires(read, (payload,)),
    ensures
        may_verify(secret@, expected_tool@, now, token@, read, claims_view(r)),
        forall|meaning: spec_fn(Seq<u8>) -> Option<ClaimsView>| #[trigger]
            reads_as(read, meaning) ==> claims_view(r) == verified(
                secret@,
                expected_tool@,
                now,
                token@,
                meaning,
            ),
{
    match open_token(secret, token) {
        Some(payload) => accept(read(payload), expected_tool, now),
        None => None,
    }
}

// ── Laws of the tokens ──────────────────────────────────────────────────

/// A valid token round-trips: a token that opens to the JSON of some claims, as
/// every minted one does, verifies to those claims for their tool up to and at
/// their expiry, and to nothing behind it or for another tool. The reader has to
/// understand what [`write_claims`] writes.
pub proof fn law_valid_tokens_round_trip(
    secret: Seq<u8>,
    token: Seq<char>,
    claims: ClaimsView,
    meaning: spec_fn(Seq<u8>) -> Option<ClaimsView>,
    tool: Seq<char>,
    now: i64,
)
    requires
        signed_payload(secret, token) == Some(encode_utf8(claims_json(claims))),
        meaning(encode_utf8(claims_json(claims))) == Some(claims),
    ensures
        verified(secret, tool, now, token, meaning) == (if now <= claims.exp && tool
            == claims.tool {
            Some(claims)
        } else {
            None
        }),
{
}

/// Whatever claims come out are not expired and are meant for the tool that was
/// asked for; claims that meet both come out as they went in.
pub proof fn law_accepted_claims_are_current_and_addressed(
    claims: Option<ClaimsView>,
    tool: Seq<char>,
    now: i64,
)
    ensures
        accepted(claims, tool, now) matches Some(c) ==> claims == Some(c) && now <= c.exp && c.tool
            == tool,
        claims matches Some(c) ==> (now <= c.exp && c.tool == tool ==> accepted(claims, tool, now)
            == Some(c)),
{
}

/// A token opens only under a secret for which its second part decodes to the tag
/// of its first part: under any other, and without a dot, it does not.
pub proof fn law_unsigned_tokens_do_not_open(secret: Seq<u8>, token: Seq<char>)
    ensures
        split_at_first(token, '.') is None ==> signed_payload(secret, token) is None,
        split_at_first(token, '.') matches Some((claims, signature)) ==> (base64_bytes(signature)
            != Some(hmac_sha256(secret, encode_utf8(claims))) ==> signed_payload(
            secret,
            token,
        ) is None),
{
}

/// Claims are put together as an object with four members in a fixed order: the
/// workspace, the project or null, the tool, and the expiry as a numeral, each text as it
/// was given.
pub proof fn law_claims_are_framed_as_an_object(
    workspace: Seq<char>,
    project: Option<Seq<char>>,
    tool: Seq<char>,
    exp: i64,
)
    ensures
        ({
            let quote = "\""@;
            let colon = "\":"@;
            let written = match project {
                Some(p) => p,
                None => "null"@,
            };
            framed_claims(workspace, project, tool, exp) == "{"@ + (quote + "workspace"@ + colon
                + workspace) + ","@ + (quote + "project"@ + colon + written) + ","@ + (quote
                + "tool"@ + colon + tool) + ","@ + (quote + "exp"@ + colon + decimal_signed(
                exp as int,
            )) + "}"@
        }),
{
    reveal_strlit("\"");
    reveal_strlit("\":");
    reveal_strlit("{");
    reveal_strlit(",");
    reveal_strlit("workspace");
    reveal_strlit("project");
    reveal_strlit("tool");
    reveal_strlit("exp");
    reveal_strlit("{\"workspace\":");
    reveal_strlit(",\"project\":");
    reveal_strlit(",\"tool\":");
    reveal_strlit(",\"exp\":");
    let quote = "\""@;
    let colon = "\":"@;
    assert("{\"workspace\":"@ =~= "{"@ + (quote + "workspace"@ + colon));
    assert(",\"project\":"@ =~= ","@ + (quote + "project"@ + colon));
    assert(",\"tool\":"@ =~= ","@ + (quote + "tool"@ + colon));
    assert(",\"exp\":"@ =~= ","@ + (quote + "exp"@ + colon));
    let written = match project {
        Some(p) => p,
        None => "null"@,
    };
    let end = decimal_signed(exp as int);
    assert(framed_claims(workspace, project, tool, exp) =~= "{"@ + (quote + "workspace"@ + colon
        + workspace) + ","@ + (quote + "project"@ + colon + written) + ","@ + (quote + "tool"@
        + colon + tool) + ","@ + (quote + "exp"@ + colon + end) + "}"@);
}

/// The JSON of claims is framed from their texts as JSON strings, whatever they hold.
pub proof fn law_claims_are_written_as_json_strings(claims: ClaimsView)
    ensures
        ({
            let workspace = compact(JsonView::Str(claims.workspace));
            let tool = compact(JsonView::Str(claims.tool));
            &&& claims.project is None ==> claims_json(claims) == framed_claims(
                workspace,
                None,
                tool,
                claims.exp,
            )
            &&& claims.project matches Some(p) ==> claims_json(claims) == framed_claims(
                workspace,
                Some(compact(JsonView::Str(p))),
                tool,
                claims.exp,
            )
        }),
{
}

/// The token for a payload is the encoded payload, a dot, and the encoded signature of
/// what stands before the dot.
pub proof fn law_tokens_sign_their_first_part(secret: Seq<u8>, payload: Seq<u8>)
    ensures
        ({
            let first = base64_text(payload);
            stripped(token_for(secret, payload), first + "."@) == Some(
                base64_text(hmac_sha256(secret, encode_utf8(first))),
            )
        }),
{
    let first = base64_text(payload);
    crate::text::law_strip_undoes_prepend(
        first + "."@,
        base64_text(hmac_sha256(secret, encode_utf8(first))),
    );
}

/// A token opens to a payload exactly when it is made of two parts around its first dot,
/// the second decodes to the signature of the first, and the first decodes to the
/// payload.
pub proof fn law_tokens_open_when_they_are_signed(
    secret: Seq<u8>,
    first: Seq<char>,
    second: Seq<char>,
    token: Seq<char>,
)
    requires
        !first.contains('.'),
    ensures
        signed_payload(secret, first + seq!['.'] + second) == (if base64_bytes(second) == Some(
            hmac_sha256(secret, encode_utf8(first)),
        ) {
            base64_bytes(first)
        } else {
            None
        }),
        !token.contains('.') ==> signed_payload(secret, token) is None,
{
    assert forall|j: int| 0 <= j < first.len() implies first[j] != '.' by {
        assert(first.contains(first[j]));
    }
    crate::text::law_split_undoes_join(first, '.', second);
    crate::text::law_join_undoes_split(token, '.');
}

/// A token verifies to claims exactly when it opens to a payload that holds them, they
/// are not expired, and they are meant for the tool.
pub proof fn law_verified_claims(
    secret: Seq<u8>,
    tool: Seq<char>,
    now: i64,
    token: Seq<char>,
    meaning: spec_fn(Seq<u8>) -> Option<ClaimsView>,
    claims: ClaimsView,
)
    ensures
        verified(secret, tool, now, token, meaning) == Some(claims) <==> {
            &&& signed_payload(secret, token) matches Some(payload)
            &&& meaning(payload) == Some(claims)
            &&& now <= claims.exp
            &&& claims.tool == tool
        },
{
}

/// Without a signature a token may verify to nothing only, whatever the reader does; with
/// one, what it may verify to is not expired and meant for the tool.
pub proof fn law_the_reader_cannot_let_claims_in<D: Fn(Vec<u8>) -> Option<Claims>>(
    secret: Seq<u8>,
    tool: Seq<char>,
    now: i64,
    token: Seq<char>,
    read: D,
    claims: Option<ClaimsView>,
)
    requires
        may_verify(secret, tool, now, token, read, claims),
    ensures
        claims matches Some(c) ==> {
            &&& signed_payload(secret, token) is Some
            &&& now <= c.exp
            &&& c.tool == tool
            &&& exists|payload: Vec<u8>, found: Option<Claims>|
                payload@ == signed_payload(secret, token)->0 && #[trigger] call_ensures(
                    read,
                    (payload,),
                    found,
                ) && claims_view(found) == Some(c)
        },
{
}

/// Claims stand for what is in them.
pub proof fn law_views_keep_every_claim(claims: Claims)
    ensures
        claims@.workspace == claims.workspace@,
        claims.project is None ==> claims@.project is None,
        claims.project matches Some(p) ==> claims@.project == Some(p@),
        claims@.tool == claims.tool@,
        claims@.exp == claims.exp,
        claims_view(Some(claims)) == Some(claims@),
        claims_view(None) is None,
{
}

} // verus!
