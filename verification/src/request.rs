//! Lambda request conversion.

use crate::event::{
    AuthorizerField, GatewayContext, ClaimValue, EventContext, EventRequest, LambdaBody, RequestAuthorizer,
};
use crate::headers::{field_values, first_value_of, header_view, str_views, values_of};
use vstd::hash_map::StringHashMap;
use vstd::prelude::*;
use crate::text::utf8_text;
use vstd::utf8::{decode_utf8, encode_utf8, valid_utf8};

verus! {

broadcast use vstd::utf8::encode_utf8_decode_utf8;

/// The headers a request keeps: every raw header whose value is UTF-8, in
/// order, with the value as the text it encodes; any other is dropped.
pub open spec fn readable_headers(raw: Seq<(String, Vec<u8>)>) -> Seq<(Seq<char>, Seq<char>)>
    decreases raw.len(),
{
    if raw.len() == 0 {
        seq![]
    } else {
        let rest = readable_headers(raw.drop_last());
        let last = raw.last();
        if valid_utf8(last.1@) {
            rest.push((last.0@, decode_utf8(last.1@)))
        } else {
            rest
        }
    }
}

/// The map of `pairs` in which a key that occurs more than once keeps the
/// value of its first pair.
pub open spec fn first_wins(pairs: Seq<(String, String)>) -> Map<Seq<char>, String>
    decreases pairs.len(),
{
    if pairs.len() == 0 {
        Map::empty()
    } else {
        let m = first_wins(pairs.drop_last());
        let last = pairs.last();
        if m.contains_key(last.0@) {
            m
        } else {
            m.insert(last.0@, last.1)
        }
    }
}

/// The map of `pairs` in which a key that occurs more than once keeps the
/// value of its last pair.
pub open spec fn last_wins(pairs: Seq<(String, String)>) -> Map<Seq<char>, String>
    decreases pairs.len(),
{
    if pairs.len() == 0 {
        Map::empty()
    } else {
        let last = pairs.last();
        last_wins(pairs.drop_last()).insert(last.0@, last.1)
    }
}

/// The claims of a `claims` object: a string claim as its text, a `null`
/// claim left out, and any other claim as its JSON text.
pub open spec fn object_claims(entries: Seq<(String, ClaimValue)>) -> Map<Seq<char>, String>
    decreases entries.len(),
{
    if entries.len() == 0 {
        Map::empty()
    } else {
        let m = object_claims(entries.drop_last());
        let last = entries.last();
        match last.1 {
            ClaimValue::Text(s) => m.insert(last.0@, s),
            ClaimValue::Null => m,
            ClaimValue::Other(j) => m.insert(last.0@, j),
        }
    }
}

/// The value of the first field of `fields` whose key is `name`.
pub open spec fn field_named(fields: Seq<(String, AuthorizerField)>, name: Seq<char>) -> Option<AuthorizerField>
    decreases fields.len(),
{
    if fields.len() == 0 {
        None
    } else {
        let earlier = field_named(fields.drop_last(), name);
        if earlier is Some {
            earlier
        } else if fields.last().0@ == name {
            Some(fields.last().1)
        } else {
            None
        }
    }
}

/// The claims of an authorizer: those of its JWT when there are any, else
/// the members of its `claims` field when that field is an object, else none.
pub open spec fn authorizer_claims(authorizer: RequestAuthorizer) -> Map<Seq<char>, String> {
    match authorizer.jwt_claims {
        Some(jwt) if jwt@.len() > 0 => last_wins(jwt@),
        _ => match field_named(authorizer.fields@, "claims"@) {
            Some(AuthorizerField::Object(entries)) => object_claims(entries@),
            _ => Map::empty(),
        },
    }
}

/// Once a prefix of the fields holds `name`, longer prefixes find the same
/// field.
proof fn lemma_field_named_prefix(fields: Seq<(String, AuthorizerField)>, name: Seq<char>, i: int)
    requires
        0 <= i <= fields.len(),
        field_named(fields.take(i), name) is Some,
    ensures
        field_named(fields, name) == field_named(fields.take(i), name),
    decreases fields.len(),
{
    if i < fields.len() {
        let prefix = fields.drop_last();
        assert(prefix.take(i) =~= fields.take(i));
        lemma_field_named_prefix(prefix, name, i);
    } else {
        assert(fields.take(i) =~= fields);
    }
}

/// The bytes of a request body.
pub open spec fn body_bytes(body: LambdaBody) -> Seq<u8> {
    match body {
        LambdaBody::Empty => seq![],
        LambdaBody::Text(s) => encode_utf8(s@),
        LambdaBody::Binary(b) => b@,
    }
}

/// `needle` occurs in `hay` as a run of consecutive bytes.
pub open spec fn bytes_contain(hay: Seq<u8>, needle: Seq<u8>) -> bool {
    exists|i: int| 0 <= i <= hay.len() - needle.len() && #[trigger] hay.subrange(i, i + needle.len()) == needle
}

/// `text` contains `pattern` as `str::contains` finds it: the UTF-8 bytes of
/// `pattern` occur in those of `text`.
pub open spec fn text_contains(text: Seq<char>, pattern: Seq<char>) -> bool {
    bytes_contain(encode_utf8(text), encode_utf8(pattern))
}

fn occurs_at(hay: &[u8], needle: &[u8], at: usize) -> (res: bool)
    requires
        at + needle@.len() <= hay@.len(),
    ensures
        res == (hay@.subrange(at as int, at + needle@.len()) == needle@),
{
    let len = needle.len();
    let hay_len = hay.len();
    let mut j: usize = 0;
    while j < len
        invariant
            0 <= j <= len,
            len == needle@.len(),
            hay_len == hay@.len(),
            at + len <= hay_len,
            forall|m: int| 0 <= m < j ==> hay@[at + m] == needle@[m],
        decreases len - j,
    {
        if hay[at + j] != needle[j] {
            assert(hay@.subrange(at as int, at + len)[j as int] != needle@[j as int]);
            return false;
        }
        j += 1;
    }
    assert(hay@.subrange(at as int, at + len) =~= needle@);
    true
}

fn contains_text(text: &str, pattern: &str) -> (res: bool)
    ensures
        res == text_contains(text@, pattern@),
{
    let hay = text.as_bytes();
    let needle = pattern.as_bytes();
    let hay_len = hay.len();
    let needle_len = needle.len();
    if needle_len > hay_len {
        return false;
    }
    let last = hay_len - needle_len;
    let mut i: usize = 0;
    while i <= last
        invariant
            0 <= i <= last + 1,
            last == hay@.len() - needle@.len(),
            hay@ == encode_utf8(text@),
            needle@ == encode_utf8(pattern@),
            forall|k: int| 0 <= k < i ==> #[trigger] hay@.subrange(k, k + needle@.len()) != needle@,
        decreases last + 1 - i,
    {
        if occurs_at(hay, needle, i) {
            assert(hay@.subrange(i as int, i + needle@.len()) == needle@);
            return true;
        }
        if i == last {
            return false;
        }
        i += 1;
    }
    false
}

/// A request whose header values are all UTF-8 keeps every header, in
/// order, repeated names included.
pub proof fn law_readable_headers_keep_all(raw: Seq<(String, Vec<u8>)>)
    requires
        forall|i: int| 0 <= i < raw.len() ==> valid_utf8(#[trigger] raw[i].1@),
    ensures
        readable_headers(raw) == raw.map_values(|h: (String, Vec<u8>)| (h.0@, decode_utf8(h.1@))),
    decreases raw.len(),
{
    if raw.len() > 0 {
        let prefix = raw.drop_last();
        assert forall|i: int| 0 <= i < prefix.len() implies valid_utf8(#[trigger] prefix[i].1@) by {
            assert(prefix[i] == raw[i]);
        }
        law_readable_headers_keep_all(prefix);
        assert(valid_utf8(raw[raw.len() - 1].1@));
        assert(raw.map_values(|h: (String, Vec<u8>)| (h.0@, decode_utf8(h.1@))) =~= prefix.map_values(
            |h: (String, Vec<u8>)| (h.0@, decode_utf8(h.1@)),
        ).push((raw.last().0@, decode_utf8(raw.last().1@))));
    }
}

/// A pair that no later pair with the same key follows gives its key its
/// own value in a last-wins map.
proof fn lemma_last_wins_value(pairs: Seq<(String, String)>, i: int)
    requires
        0 <= i < pairs.len(),
        forall|j: int| i < j < pairs.len() ==> #[trigger] pairs[j].0@ != pairs[i].0@,
    ensures
        last_wins(pairs).contains_key(pairs[i].0@),
        last_wins(pairs)[pairs[i].0@] == pairs[i].1,
    decreases pairs.len(),
{
    if i < pairs.len() - 1 {
        let prefix = pairs.drop_last();
        assert forall|j: int| i < j < prefix.len() implies #[trigger] prefix[j].0@ != prefix[i].0@ by {
            assert(prefix[j] == pairs[j]);
        }
        lemma_last_wins_value(prefix, i);
        assert(pairs[pairs.len() - 1].0@ != pairs[i].0@);
    }
}

/// The keys of a last-wins map are the keys of its pairs.
proof fn lemma_last_wins_keys(pairs: Seq<(String, String)>, key: Seq<char>)
    ensures
        last_wins(pairs).contains_key(key) <==> exists|j: int| 0 <= j < pairs.len() && #[trigger] pairs[j].0@ == key,
    decreases pairs.len(),
{
    if pairs.len() > 0 {
        let prefix = pairs.drop_last();
        lemma_last_wins_keys(prefix, key);
        if exists|j: int| 0 <= j < prefix.len() && #[trigger] prefix[j].0@ == key {
            let j = choose|j: int| 0 <= j < prefix.len() && #[trigger] prefix[j].0@ == key;
            assert(pairs[j] == prefix[j]);
        }
        if exists|j: int| 0 <= j < pairs.len() && #[trigger] pairs[j].0@ == key {
            let j = choose|j: int| 0 <= j < pairs.len() && #[trigger] pairs[j].0@ == key;
            if j < prefix.len() {
                assert(prefix[j] == pairs[j]);
            }
        }
    }
}

/// An authorizer with JWT claims gives every one of them: each key takes the
/// value of its last claim, and no key without a claim appears.
pub proof fn law_jwt_claims_all_kept(authorizer: RequestAuthorizer, jwt: Vec<(String, String)>)
    requires
        authorizer.jwt_claims == Some(jwt),
        jwt@.len() > 0,
    ensures
        forall|i: int|
            0 <= i < jwt@.len() && (forall|j: int| i < j < jwt@.len() ==> jwt@[j].0@ != jwt@[i].0@) ==> {
                &&& authorizer_claims(authorizer).contains_key(#[trigger] jwt@[i].0@)
                &&& authorizer_claims(authorizer)[jwt@[i].0@] == jwt@[i].1
            },
        forall|k: Seq<char>|
            #[trigger] authorizer_claims(authorizer).contains_key(k) ==> exists|j: int|
                0 <= j < jwt@.len() && #[trigger] jwt@[j].0@ == k,
{
    assert forall|i: int|
        0 <= i < jwt@.len() && (forall|j: int| i < j < jwt@.len() ==> jwt@[j].0@ != jwt@[i].0@) implies {
            &&& authorizer_claims(authorizer).contains_key(#[trigger] jwt@[i].0@)
            &&& authorizer_claims(authorizer)[jwt@[i].0@] == jwt@[i].1
        } by {
        assert forall|j: int| i < j < jwt@.len() implies #[trigger] jwt@[j].0@ != jwt@[i].0@ by {}
        lemma_last_wins_value(jwt@, i);
    }
    assert forall|k: Seq<char>| #[trigger] authorizer_claims(authorizer).contains_key(k) implies exists|j: int|
        0 <= j < jwt@.len() && #[trigger] jwt@[j].0@ == k by {
        lemma_last_wins_keys(jwt@, k);
    }
}

/// A path parameter or stage variable is present exactly when some pair
/// names it.
pub proof fn law_first_wins_keys(pairs: Seq<(String, String)>, key: Seq<char>)
    ensures
        first_wins(pairs).contains_key(key) <==> exists|j: int| 0 <= j < pairs.len() && #[trigger] pairs[j].0@ == key,
    decreases pairs.len(),
{
    if pairs.len() > 0 {
        let prefix = pairs.drop_last();
        law_first_wins_keys(prefix, key);
        if exists|j: int| 0 <= j < prefix.len() && #[trigger] prefix[j].0@ == key {
            let j = choose|j: int| 0 <= j < prefix.len() && #[trigger] prefix[j].0@ == key;
            assert(pairs[j] == prefix[j]);
        }
        if exists|j: int| 0 <= j < pairs.len() && #[trigger] pairs[j].0@ == key {
            let j = choose|j: int| 0 <= j < pairs.len() && #[trigger] pairs[j].0@ == key;
            if j < prefix.len() {
                assert(prefix[j] == pairs[j]);
            }
        }
    }
}

/// A path parameter or stage variable given more than once keeps the value
/// of its first pair.
pub proof fn law_first_value_wins(pairs: Seq<(String, String)>, i: int)
    requires
        0 <= i < pairs.len(),
        forall|j: int| 0 <= j < i ==> #[trigger] pairs[j].0@ != pairs[i].0@,
    ensures
        first_wins(pairs).contains_key(pairs[i].0@),
        first_wins(pairs)[pairs[i].0@] == pairs[i].1,
    decreases pairs.len(),
{
    let prefix = pairs.drop_last();
    let key = pairs[i].0@;
    if i == pairs.len() - 1 {
        law_first_wins_keys(prefix, key);
        if exists|j: int| 0 <= j < prefix.len() && #[trigger] prefix[j].0@ == key {
            let j = choose|j: int| 0 <= j < prefix.len() && #[trigger] prefix[j].0@ == key;
            assert(pairs[j] == prefix[j]);
        }
    } else {
        assert forall|j: int| 0 <= j < i implies #[trigger] prefix[j].0@ != prefix[i].0@ by {
            assert(prefix[j] == pairs[j]);
        }
        law_first_value_wins(prefix, i);
        assert(prefix[i] == pairs[i]);
    }
}

/// A claim of a `claims` object is kept exactly when some entry gives its
/// key a value other than `null`.
pub proof fn law_object_claims_keys(entries: Seq<(String, ClaimValue)>, key: Seq<char>)
    ensures
        object_claims(entries).contains_key(key) <==> exists|j: int|
            0 <= j < entries.len() && #[trigger] entries[j].0@ == key && !(entries[j].1 is Null),
    decreases entries.len(),
{
    if entries.len() > 0 {
        let prefix = entries.drop_last();
        law_object_claims_keys(prefix, key);
        if exists|j: int| 0 <= j < prefix.len() && #[trigger] prefix[j].0@ == key && !(prefix[j].1 is Null) {
            let j = choose|j: int| 0 <= j < prefix.len() && #[trigger] prefix[j].0@ == key && !(prefix[j].1 is Null);
            assert(entries[j] == prefix[j]);
        }
        if exists|j: int| 0 <= j < entries.len() && #[trigger] entries[j].0@ == key && !(entries[j].1 is Null) {
            let j = choose|j: int| 0 <= j < entries.len() && #[trigger] entries[j].0@ == key && !(entries[j].1 is Null);
            if j < prefix.len() {
                assert(prefix[j] == entries[j]);
            }
        }
    }
}

/// A claim of a `claims` object takes the value of the last entry for its
/// key that is not `null`: the text of a string, the JSON text of anything
/// else.
pub proof fn law_object_claims_values(entries: Seq<(String, ClaimValue)>, i: int)
    requires
        0 <= i < entries.len(),
        !(entries[i].1 is Null),
        forall|j: int| i < j < entries.len() && #[trigger] entries[j].0@ == entries[i].0@ ==> entries[j].1 is Null,
    ensures
        object_claims(entries).contains_key(entries[i].0@),
        object_claims(entries)[entries[i].0@] == match entries[i].1 {
            ClaimValue::Text(s) => s,
            ClaimValue::Other(j) => j,
            ClaimValue::Null => arbitrary(),
        },
    decreases entries.len(),
{
    let prefix = entries.drop_last();
    if i < entries.len() - 1 {
        assert forall|j: int| i < j < prefix.len() && #[trigger] prefix[j].0@ == prefix[i].0@ implies prefix[j].1 is Null by {
            assert(prefix[j] == entries[j]);
        }
        law_object_claims_values(prefix, i);
        assert(prefix[i] == entries[i]);
        let last = entries[entries.len() - 1];
        if last.0@ == entries[i].0@ {
            assert(last.1 is Null);
        }
    }
}

/// Once a prefix of the fields holds `name` at its first entry with that key,
/// the whole list finds that entry.
proof fn lemma_field_named_first(fields: Seq<(String, AuthorizerField)>, name: Seq<char>, i: int)
    requires
        0 <= i < fields.len(),
        fields[i].0@ == name,
        forall|j: int| 0 <= j < i ==> #[trigger] fields[j].0@ != name,
    ensures
        field_named(fields, name) == Some(fields[i].1),
    decreases fields.len(),
{
    let prefix = fields.drop_last();
    if i < fields.len() - 1 {
        assert forall|j: int| 0 <= j < i implies #[trigger] prefix[j].0@ != name by {
            assert(prefix[j] == fields[j]);
        }
        lemma_field_named_first(prefix, name, i);
        assert(prefix[i] == fields[i]);
    } else {
        lemma_field_named_absent(prefix, name);
    }
}

/// No entry with the key: the field is not found.
proof fn lemma_field_named_absent(fields: Seq<(String, AuthorizerField)>, name: Seq<char>)
    requires
        forall|j: int| 0 <= j < fields.len() ==> #[trigger] fields[j].0@ != name,
    ensures
        field_named(fields, name) is None,
    decreases fields.len(),
{
    if fields.len() > 0 {
        let prefix = fields.drop_last();
        assert forall|j: int| 0 <= j < prefix.len() implies #[trigger] prefix[j].0@ != name by {
            assert(prefix[j] == fields[j]);
        }
        lemma_field_named_absent(prefix, name);
    }
}

/// Without JWT claims, an authorizer whose raw map has a `claims` object
/// gives the claims of that object; when its `claims` field is not an
/// object, or there is none, it gives no claims.
pub proof fn law_claims_from_claims_field(authorizer: RequestAuthorizer, i: int)
    requires
        authorizer.jwt_claims matches Some(jwt) ==> jwt@.len() == 0,
        0 <= i < authorizer.fields@.len(),
        authorizer.fields@[i].0@ == "claims"@,
        forall|j: int| 0 <= j < i ==> #[trigger] authorizer.fields@[j].0@ != "claims"@,
    ensures
        authorizer.fields@[i].1 matches AuthorizerField::Object(entries) ==> authorizer_claims(authorizer)
            == object_claims(entries@),
        authorizer.fields@[i].1 is Other ==> authorizer_claims(authorizer) == Map::<Seq<char>, String>::empty(),
{
    lemma_field_named_first(authorizer.fields@, "claims"@, i);
}

/// Without JWT claims and without a `claims` field, an authorizer gives no
/// claims.
pub proof fn law_no_claims_without_sources(authorizer: RequestAuthorizer)
    requires
        authorizer.jwt_claims matches Some(jwt) ==> jwt@.len() == 0,
        forall|j: int| 0 <= j < authorizer.fields@.len() ==> #[trigger] authorizer.fields@[j].0@ != "claims"@,
    ensures
        authorizer_claims(authorizer) == Map::<Seq<char>, String>::empty(),
{
    lemma_field_named_absent(authorizer.fields@, "claims"@);
}

/// Adding a raw header adds it, with its value as the text its bytes encode,
/// exactly when those bytes are UTF-8; a header that is not is dropped.
pub proof fn law_readable_headers_step(raw: Seq<(String, Vec<u8>)>, header: (String, Vec<u8>))
    ensures
        valid_utf8(header.1@) ==> readable_headers(raw.push(header)) == readable_headers(raw).push(
            (header.0@, decode_utf8(header.1@)),
        ),
        !valid_utf8(header.1@) ==> readable_headers(raw.push(header)) == readable_headers(raw),
{
    assert(raw.push(header).drop_last() =~= raw);
}

/// The bytes of a body: none for an empty body, the UTF-8 bytes of a text
/// body, the bytes themselves for a binary one.
pub proof fn law_body_bytes(body: LambdaBody)
    ensures
        body is Empty ==> body_bytes(body).len() == 0,
        body matches LambdaBody::Text(s) ==> body_bytes(body) == encode_utf8(s@),
        body matches LambdaBody::Binary(b) ==> body_bytes(body) == b@,
{
}

/// Request context from API Gateway.
pub struct RequestContext {
    /// Request ID.
    pub request_id: Option<String>,
    /// Stage name.
    pub stage: Option<String>,
    /// Domain name.
    pub domain_name: Option<String>,
    /// HTTP method.
    pub http_method: Option<String>,
    /// Source IP.
    pub source_ip: Option<String>,
    /// User agent.
    pub user_agent: Option<String>,
    /// Authorizer claims (for Cognito / JWT authorizers).
    pub authorizer_claims: StringHashMap<String>,
}

impl RequestContext {
    /// The context holds nothing: no field is set and there are no claims.
    pub open spec fn spec_is_empty(&self) -> bool {
        &&& self.request_id is None
        &&& self.stage is None
        &&& self.domain_name is None
        &&& self.http_method is None
        &&& self.source_ip is None
        &&& self.user_agent is None
        &&& self.authorizer_claims@ == Map::<Seq<char>, String>::empty()
    }

    /// This is the context of a request whose event carried `context`:
    /// the fields of an API Gateway context, with its authorizer's claims;
    /// an empty context for any other event or none.
    pub open spec fn spec_from_event(&self, context: Option<EventContext>) -> bool {
        match context {
            Some(EventContext::ApiGatewayV2(g)) | Some(EventContext::ApiGatewayV1(g)) => {
                &&& self.request_id == g.request_id
                &&& self.stage == g.stage
                &&& self.domain_name == g.domain_name
                &&& self.http_method == Some(g.http_method)
                &&& self.source_ip == g.source_ip
                &&& self.user_agent == g.user_agent
                &&& self.authorizer_claims@ == match g.authorizer {
                    Some(a) => authorizer_claims(a),
                    None => Map::empty(),
                }
            },
            _ => self.spec_is_empty(),
        }
    }
}

impl Default for RequestContext {
    fn default() -> (res: Self)
        ensures
            res.spec_is_empty(),
    {
        RequestContext {
            request_id: None,
            stage: None,
            domain_name: None,
            http_method: None,
            source_ip: None,
            user_agent: None,
            authorizer_claims: StringHashMap::new(),
        }
    }
}

fn readable_header_list(raw: &Vec<(String, Vec<u8>)>) -> (res: Vec<(String, String)>)
    ensures
        header_view(res@) == readable_headers(raw@),
{
    let mut out: Vec<(String, String)> = Vec::new();
    let len = raw.len();
    let mut i: usize = 0;
    while i < len
        invariant
            0 <= i <= len,
            len == raw@.len(),
            header_view(out@) == readable_headers(raw@.take(i as int)),
        decreases len - i,
    {
        let entry = &raw[i];
        let ghost before = out@;
        assert(raw@.take(i + 1).drop_last() =~= raw@.take(i as int));
        assert(raw@.take(i + 1).last() == *entry);
        match utf8_text(entry.1.as_slice()) {
            Some(text) => {
                let ghost chars = text@;
                out.push((entry.0.clone(), text));
                assert(chars == decode_utf8(entry.1@));
                assert(header_view(out@) =~= header_view(before).push((entry.0@, chars)));
            },
            None => {},
        }
        i += 1;
    }
    assert(raw@.take(len as int) =~= raw@);
    out
}

fn first_wins_map(pairs: &Vec<(String, String)>) -> (res: StringHashMap<String>)
    ensures
        res@ == first_wins(pairs@),
{
    let mut map: StringHashMap<String> = StringHashMap::new();
    let len = pairs.len();
    let mut i: usize = 0;
    while i < len
        invariant
            0 <= i <= len,
            len == pairs@.len(),
            map@ == first_wins(pairs@.take(i as int)),
        decreases len - i,
    {
        let entry = &pairs[i];
        assert(pairs@.take(i + 1).drop_last() =~= pairs@.take(i as int));
        assert(pairs@.take(i + 1).last() == *entry);
        if !map.contains_key(entry.0.as_str()) {
            map.insert(entry.0.clone(), entry.1.clone());
        }
        i += 1;
    }
    assert(pairs@.take(len as int) =~= pairs@);
    map
}

fn last_wins_map(pairs: &Vec<(String, String)>) -> (res: StringHashMap<String>)
    ensures
        res@ == last_wins(pairs@),
{
    let mut map: StringHashMap<String> = StringHashMap::new();
    let len = pairs.len();
    let mut i: usize = 0;
    while i < len
        invariant
            0 <= i <= len,
            len == pairs@.len(),
            map@ == last_wins(pairs@.take(i as int)),
        decreases len - i,
    {
        let entry = &pairs[i];
        assert(pairs@.take(i + 1).drop_last() =~= pairs@.take(i as int));
        assert(pairs@.take(i + 1).last() == *entry);
        map.insert(entry.0.clone(), entry.1.clone());
        i += 1;
    }
    assert(pairs@.take(len as int) =~= pairs@);
    map
}

fn object_claims_map(entries: &Vec<(String, ClaimValue)>) -> (res: StringHashMap<String>)
    ensures
        res@ == object_claims(entries@),
{
    let mut map: StringHashMap<String> = StringHashMap::new();
    let len = entries.len();
    let mut i: usize = 0;
    while i < len
        invariant
            0 <= i <= len,
            len == entries@.len(),
            map@ == object_claims(entries@.take(i as int)),
        decreases len - i,
    {
        let entry = &entries[i];
        assert(entries@.take(i + 1).drop_last() =~= entries@.take(i as int));
        assert(entries@.take(i + 1).last() == *entry);
        match &entry.1 {
            ClaimValue::Text(s) => map.insert(entry.0.clone(), s.clone()),
            ClaimValue::Null => {},
            ClaimValue::Other(json) => map.insert(entry.0.clone(), json.clone()),
        }
        i += 1;
    }
    assert(entries@.take(len as int) =~= entries@);
    map
}

fn find_field<'a>(fields: &'a Vec<(String, AuthorizerField)>, name: &str) -> (res: Option<&'a AuthorizerField>)
    ensures
        res matches Some(f) ==> field_named(fields@, name@) == Some(*f),
        res is None ==> field_named(fields@, name@) is None,
{
    let wanted = String::from_str(name);
    let len = fields.len();
    let mut i: usize = 0;
    while i < len
        invariant
            0 <= i <= len,
            len == fields@.len(),
            wanted@ == name@,
            field_named(fields@.take(i as int), name@) is None,
        decreases len - i,
    {
        let entry = &fields[i];
        assert(fields@.take(i + 1).drop_last() =~= fields@.take(i as int));
        assert(fields@.take(i + 1).last() == *entry);
        if entry.0 == wanted {
            proof {
                lemma_field_named_prefix(fields@, name@, i + 1);
            }
            return Some(&entry.1);
        }
        i += 1;
    }
    assert(fields@.take(len as int) =~= fields@);
    None
}

/// Extract authorizer claims from an API Gateway request authorizer.
///
/// Handles both shapes:
/// - HTTP API (V2) and REST API JWT authorizers expose `authorizer.jwt.claims`.
/// - REST API (V1) Cognito / custom authorizers expose the claims as a nested
///   `claims` object inside the raw `authorizer` map.
fn extract_claims(authorizer: &RequestAuthorizer) -> (res: StringHashMap<String>)
    ensures
        res@ == authorizer_claims(*authorizer),
{
    if let Some(jwt) = &authorizer.jwt_claims {
        if jwt.len() > 0 {
            return last_wins_map(jwt);
        }
    }
    match find_field(&authorizer.fields, "claims") {
        Some(AuthorizerField::Object(entries)) => object_claims_map(entries),
        _ => StringHashMap::new(),
    }
}

fn context_from_event(context: Option<EventContext>) -> (res: RequestContext)
    ensures
        res.spec_from_event(context),
{
    match context {
        Some(EventContext::ApiGatewayV2(g)) | Some(EventContext::ApiGatewayV1(g)) => {
            let claims = match &g.authorizer {
                Some(a) => extract_claims(a),
                None => StringHashMap::new(),
            };
            RequestContext {
                request_id: g.request_id,
                stage: g.stage,
                domain_name: g.domain_name,
                http_method: Some(g.http_method),
                source_ip: g.source_ip,
                user_agent: g.user_agent,
                authorizer_claims: claims,
            }
        },
        _ => RequestContext::default(),
    }
}

/// An API Gateway event of either kind, REST (V1) or HTTP (V2), gives the
/// request context the event's own request id, stage, domain name, method,
/// source IP and user agent, and no claims when it has no authorizer.
pub proof fn law_gateway_context_copied(context: RequestContext, gateway: GatewayContext, rest_api: bool)
    requires
        context.spec_from_event(
            Some(
                if rest_api {
                    EventContext::ApiGatewayV1(gateway)
                } else {
                    EventContext::ApiGatewayV2(gateway)
                },
            ),
        ),
    ensures
        context.request_id == gateway.request_id,
        context.stage == gateway.stage,
        context.domain_name == gateway.domain_name,
        context.http_method == Some(gateway.http_method),
        context.source_ip == gateway.source_ip,
        context.user_agent == gateway.user_agent,
        gateway.authorizer is None ==> context.authorizer_claims@.dom().len() == 0,
{
}

/// An event without an API Gateway context gives a context with nothing set
/// and no claims.
pub proof fn law_other_events_give_empty_context(context: RequestContext, event: Option<EventContext>)
    requires
        context.spec_from_event(event),
        !(event matches Some(EventContext::ApiGatewayV1(_))),
        !(event matches Some(EventContext::ApiGatewayV2(_))),
    ensures
        context.request_id is None,
        context.stage is None,
        context.domain_name is None,
        context.http_method is None,
        context.source_ip is None,
        context.user_agent is None,
        context.authorizer_claims@.dom().len() == 0,
{
}

/// Wrapper for Lambda HTTP requests.
pub struct LambdaRequest {
    /// HTTP method.
    pub method: http::Method,
    /// Request path.
    pub path: String,
    /// Query string.
    pub query_string: Option<String>,
    /// Headers, in the order they arrived.
    ///
    /// A list rather than a map because a request may legitimately carry the
    /// same field name more than once (`Cookie`, `X-Forwarded-For`, `Via`), and
    /// a map would keep only the last of them.
    pub headers: Vec<(String, String)>,
    /// Request body.
    pub body: Vec<u8>,
    /// Path parameters (from API Gateway).
    pub path_parameters: StringHashMap<String>,
    /// Stage variables (from API Gateway).
    pub stage_variables: StringHashMap<String>,
    /// Request context.
    pub request_context: RequestContext,
}

impl LambdaRequest {
    /// The headers as `(name, value)` character sequences.
    pub open spec fn spec_headers(&self) -> Seq<(Seq<char>, Seq<char>)> {
        header_view(self.headers@)
    }

    /// Create from an incoming Lambda HTTP request.
    ///
    /// Headers keep their order and repeated names; a header whose value is
    /// not UTF-8 is dropped. A path parameter or stage variable with
    /// several values keeps its first.
    pub fn from_lambda_request(request: EventRequest) -> (res: Self)
        ensures
            res.method == request.method,
            res.path == request.path,
            res.query_string == request.query,
            res.spec_headers() == readable_headers(request.headers@),
            res.body@ == body_bytes(request.body),
            res.path_parameters@ == first_wins(request.path_parameters@),
            res.stage_variables@ == first_wins(request.stage_variables@),
            res.request_context.spec_from_event(request.context),
    {
        let ghost body_spec = body_bytes(request.body);
        let path_parameters = first_wins_map(&request.path_parameters);
        let stage_variables = first_wins_map(&request.stage_variables);
        let headers = readable_header_list(&request.headers);
        let request_context = context_from_event(request.context);
        let body = match request.body {
            LambdaBody::Empty => Vec::new(),
            LambdaBody::Text(text) => text.as_str().as_bytes_vec(),
            LambdaBody::Binary(bytes) => bytes,
        };
        assert(body@ =~= body_spec);
        LambdaRequest {
            method: request.method,
            path: request.path,
            query_string: request.query,
            headers,
            body,
            path_parameters,
            stage_variables,
            request_context,
        }
    }

    /// Get the first value for a header, matched case-insensitively.
    pub fn header(&self, name: &str) -> (res: Option<&str>)
        ensures
            res is Some <==> field_values(self.spec_headers(), name@).len() > 0,
            res matches Some(v) ==> v@ == field_values(self.spec_headers(), name@)[0],
    {
        first_value_of(&self.headers, name)
    }

    /// Get every value for a header, in arrival order, matched
    /// case-insensitively. Use this for names that legitimately repeat.
    pub fn header_values(&self, name: &str) -> (res: Vec<&str>)
        ensures
            str_views(res@) == field_values(self.spec_headers(), name@),
    {
        values_of(&self.headers, name)
    }

    /// Get the content type.
    pub fn content_type(&self) -> (res: Option<&str>)
        ensures
            res is Some <==> field_values(self.spec_headers(), "content-type"@).len() > 0,
            res matches Some(v) ==> v@ == field_values(self.spec_headers(), "content-type"@)[0],
    {
        self.header("content-type")
    }

    /// Check if the request is JSON: its content type contains
    /// `application/json`.
    pub fn is_json(&self) -> (res: bool)
        ensures
            res == (field_values(self.spec_headers(), "content-type"@).len() > 0 && text_contains(
                field_values(self.spec_headers(), "content-type"@)[0],
                "application/json"@,
            )),
    {
        match self.content_type() {
            Some(content_type) => contains_text(content_type, "application/json"),
            None => false,
        }
    }

    /// Get the source IP.
    pub fn source_ip(&self) -> (res: Option<&str>)
        ensures
            res is Some <==> self.request_context.source_ip is Some,
            res matches Some(v) ==> v@ == self.request_context.source_ip->0@,
    {
        match &self.request_context.source_ip {
            Some(ip) => Some(ip.as_str()),
            None => None,
        }
    }

    /// Get a path parameter.
    pub fn path_parameter(&self, name: &str) -> (res: Option<&str>)
        ensures
            res is Some <==> self.path_parameters@.contains_key(name@),
            res matches Some(v) ==> v@ == self.path_parameters@[name@]@,
    {
        match self.path_parameters.get(name) {
            Some(value) => Some(value.as_str()),
            None => None,
        }
    }

    /// Get a stage variable.
    pub fn stage_variable(&self, name: &str) -> (res: Option<&str>)
        ensures
            res is Some <==> self.stage_variables@.contains_key(name@),
            res matches Some(v) ==> v@ == self.stage_variables@[name@]@,
    {
        match self.stage_variables.get(name) {
            Some(value) => Some(value.as_str()),
            None => None,
        }
    }

    /// Get authorizer claims (for Cognito / JWT authorizers).
    pub fn claims(&self) -> (res: &StringHashMap<String>)
        ensures
            res@ == self.request_context.authorizer_claims@,
    {
        &self.request_context.authorizer_claims
    }

    /// Get a specific claim.
    pub fn claim(&self, key: &str) -> (res: Option<&str>)
        ensures
            res is Some <==> self.request_context.authorizer_claims@.contains_key(key@),
            res matches Some(v) ==> v@ == self.request_context.authorizer_claims@[key@]@,
    {
        match self.request_context.authorizer_claims.get(key) {
            Some(value) => Some(value.as_str()),
            None => None,
        }
    }
}

} // verus!
