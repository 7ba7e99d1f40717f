//! Request URIs: `/dav/<collection>/<account>/<path>` and the internal URNs
//! of lock tokens and sync cursors.

use crate::hierarchy::DavResources;
use crate::status;
use crate::text::{
    chars_of, find, find_char, find_char_from, find_from, fixed_hex, has_at, lemma_hex_round_trip,
    matches_at, parse_unsigned, pow16, read_unsigned, same_chars, string_of, trim_end,
    trimmed_len, write_fixed_hex,
};
use crate::token::{AccessToken, Collection};
use crate::DavError;
use vstd::prelude::*;
use vstd::utf8::{decode_utf8, encode_utf8, valid_utf8};

verus! {

/// A URI taken apart: the collection it names, the account, and the
/// resource below the account's root.
#[derive(Debug)]
pub struct UriResource<A, R> {
    pub collection: Collection,
    pub account_id: A,
    pub resource: R,
}

/// A URI whose account and path may both be missing.
pub type UnresolvedUri = UriResource<Option<u32>, Option<String>>;

/// A URI with its account.
pub type OwnedUri = UriResource<u32, Option<String>>;

/// A URI mapped to a stored document.
pub type DocumentUri = UriResource<u32, u32>;

/// The first segment of a URI below `/dav/`: the profile it addresses.
#[derive(Debug, Clone, Copy, PartialEq, Eq, Structural)]
pub enum DavResourceName {
    Card,
    Cal,
    File,
    Principal,
}

impl DavResourceName {
    /// The profile that a collection tag names.
    pub open spec fn spec_parse(tag: Seq<char>) -> Option<DavResourceName> {
        if tag == "card"@ {
            Some(DavResourceName::Card)
        } else if tag == "cal"@ {
            Some(DavResourceName::Cal)
        } else if tag == "file"@ {
            Some(DavResourceName::File)
        } else if tag == "principal"@ {
            Some(DavResourceName::Principal)
        } else {
            None
        }
    }

    /// The container collection that the profile holds.
    pub open spec fn spec_collection(self) -> Collection {
        match self {
            DavResourceName::Card => Collection::AddressBook,
            DavResourceName::Cal => Collection::Calendar,
            DavResourceName::File => Collection::FileNode,
            DavResourceName::Principal => Collection::Principal,
        }
    }

    /// The profile that holds a collection.
    pub open spec fn spec_of(collection: Collection) -> DavResourceName {
        match collection {
            Collection::AddressBook | Collection::ContactCard => DavResourceName::Card,
            Collection::Calendar | Collection::CalendarEvent => DavResourceName::Cal,
            Collection::FileNode => DavResourceName::File,
            Collection::Principal => DavResourceName::Principal,
        }
    }

    /// The URI prefix of the profile, ending in `/`.
    pub open spec fn spec_collection_path(self) -> Seq<char> {
        match self {
            DavResourceName::Card => "/dav/card/"@,
            DavResourceName::Cal => "/dav/cal/"@,
            DavResourceName::File => "/dav/file/"@,
            DavResourceName::Principal => "/dav/principal/"@,
        }
    }

    fn parse_chars(s: &Vec<char>, from: usize, to: usize) -> (r: Option<DavResourceName>)
        requires
            from <= to <= s.len(),
        ensures
            r == Self::spec_parse(s@.subrange(from as int, to as int)),
    {
        if same_chars(s, from, to, &chars_of("card")) {
            Some(DavResourceName::Card)
        } else if same_chars(s, from, to, &chars_of("cal")) {
            Some(DavResourceName::Cal)
        } else if same_chars(s, from, to, &chars_of("file")) {
            Some(DavResourceName::File)
        } else if same_chars(s, from, to, &chars_of("principal")) {
            Some(DavResourceName::Principal)
        } else {
            None
        }
    }

    /// The profile that a collection tag names.
    pub fn parse(tag: &str) -> (r: Option<DavResourceName>)
        ensures
            r == Self::spec_parse(tag@),
    {
        let chars = chars_of(tag);
        assert(chars@.subrange(0, chars@.len() as int) =~= chars@);
        Self::parse_chars(&chars, 0, chars.len())
    }

    /// The container collection that the profile holds.
    pub fn collection(self) -> (r: Collection)
        ensures
            r == self.spec_collection(),
    {
        match self {
            DavResourceName::Card => Collection::AddressBook,
            DavResourceName::Cal => Collection::Calendar,
            DavResourceName::File => Collection::FileNode,
            DavResourceName::Principal => Collection::Principal,
        }
    }

    /// The profile that holds a collection.
    pub fn of(collection: Collection) -> (r: DavResourceName)
        ensures
            r == Self::spec_of(collection),
    {
        match collection {
            Collection::AddressBook | Collection::ContactCard => DavResourceName::Card,
            Collection::Calendar | Collection::CalendarEvent => DavResourceName::Cal,
            Collection::FileNode => DavResourceName::File,
            Collection::Principal => DavResourceName::Principal,
        }
    }

    /// The URI prefix of the profile, ending in `/`.
    pub fn collection_path(self) -> (r: &'static str)
        ensures
            r@ == self.spec_collection_path(),
    {
        match self {
            DavResourceName::Card => "/dav/card/",
            DavResourceName::Cal => "/dav/cal/",
            DavResourceName::File => "/dav/file/",
            DavResourceName::Principal => "/dav/principal/",
        }
    }
}

/// What a hexadecimal digit is worth.
pub open spec fn hex_value(b: u8) -> Option<u8> {
    if 48 <= b <= 57 {
        Some((b - 48) as u8)
    } else if 97 <= b <= 102 {
        Some((b - 87) as u8)
    } else if 65 <= b <= 70 {
        Some((b - 55) as u8)
    } else {
        None
    }
}

/// Whether `b` begins with `%` and two hexadecimal digits.
pub open spec fn is_escape(b: Seq<u8>) -> bool {
    b.len() >= 3 && b[0] == 37 && hex_value(b[1]).is_some() && hex_value(b[2]).is_some()
}

/// The bytes `b` with every `%XX` replaced by the byte that it writes. A
/// `%` that two hexadecimal digits do not follow stands for itself.
pub open spec fn percent_decoded(b: Seq<u8>) -> Seq<u8>
    decreases b.len(),
{
    if b.len() == 0 {
        Seq::empty()
    } else if is_escape(b) {
        seq![(hex_value(b[1]).unwrap() * 16 + hex_value(b[2]).unwrap()) as u8] + percent_decoded(
            b.skip(3),
        )
    } else {
        seq![b[0]] + percent_decoded(b.skip(1))
    }
}

/// A path segment with its percent escapes resolved; the segment as it is
/// where the result would not be text.
pub open spec fn spec_decode_path_element(s: Seq<char>) -> Seq<char> {
    let decoded = percent_decoded(encode_utf8(s));
    if valid_utf8(decoded) {
        decode_utf8(decoded)
    } else {
        s
    }
}

/// Reads bytes as text.
///
/// Trusted: `String::from_utf8` of the standard library, which gives the
/// text that the bytes encode where they are valid UTF-8, and fails
/// otherwise.
#[verifier::external_body]
fn text_from_utf8(bytes: Vec<u8>) -> (r: Option<String>)
    ensures
        r.is_some() == valid_utf8(bytes@),
        r.is_some() ==> r.unwrap()@ == decode_utf8(bytes@),
{
    String::from_utf8(bytes).ok()
}

fn hex_digit(b: u8) -> (r: Option<u8>)
    ensures
        r == hex_value(b),
{
    if 48 <= b && b <= 57 {
        Some(b - 48)
    } else if 97 <= b && b <= 102 {
        Some(b - 87)
    } else if 65 <= b && b <= 70 {
        Some(b - 55)
    } else {
        None
    }
}

/// Resolves the percent escapes of a path segment.
pub fn decode_path_element(item: &str) -> (r: String)
    ensures
        r@ == spec_decode_path_element(item@),
{
    let bytes = item.as_bytes();
    let mut out: Vec<u8> = Vec::new();
    let mut i: usize = 0;
    assert(bytes@.skip(0) =~= bytes@);
    while i < bytes.len()
        invariant
            i <= bytes.len(),
            bytes@ == encode_utf8(item@),
            out@ + percent_decoded(bytes@.skip(i as int)) == percent_decoded(bytes@),
        decreases bytes.len() - i,
    {
        let ghost rest = bytes@.skip(i as int);
        let ghost had = out@;
        let mut step: usize = 1;
        let mut byte: u8 = bytes[i];
        if bytes[i] == 37 && bytes.len() - i >= 3 {
            if let (Some(hi), Some(lo)) = (hex_digit(bytes[i + 1]), hex_digit(bytes[i + 2])) {
                byte = hi * 16 + lo;
                step = 3;
            }
        }
        out.push(byte);
        proof {
            assert(rest[0] == bytes@[i as int]);
            if rest.len() >= 3 {
                assert(rest[1] == bytes@[i + 1]);
                assert(rest[2] == bytes@[i + 2]);
            }
            assert(rest.skip(step as int) =~= bytes@.skip(i + step));
            assert(had + (seq![byte] + percent_decoded(rest.skip(step as int))) =~= out@
                + percent_decoded(bytes@.skip(i + step)));
        }
        i += step;
    }
    assert(out@ =~= percent_decoded(bytes@));
    match text_from_utf8(out) {
        Some(text) => text,
        None => item.to_owned(),
    }
}

/// How the account segment of a URI names its account.
#[derive(Debug)]
pub enum AccountRef {
    /// `_<id>`: the id as written.
    Id(u32),
    /// The name of a principal, percent escapes resolved.
    Name(String),
}

/// A URI read, before its account is resolved.
#[derive(Debug)]
pub struct UriParts {
    pub collection: Collection,
    pub account: Option<AccountRef>,
    pub resource: Option<String>,
}

/// Where the first three segments of `s` lie: each as a start and an end.
/// A segment ends at `/`, the third at the end of `s` whatever it holds.
pub open spec fn spec_segments(s: Seq<char>) -> Seq<(int, int)> {
    match find_char_from(s, '/', 0) {
        None => seq![(0int, s.len() as int)],
        Some(i) => match find_char_from(s, '/', i + 1) {
            None => seq![(0int, i), (i + 1, s.len() as int)],
            Some(j) => seq![(0int, i), (i + 1, j), (j + 1, s.len() as int)],
        },
    }
}

/// The first `n` of `parts` that are not empty.
pub open spec fn spec_non_empty(parts: Seq<(int, int)>, n: int) -> Seq<(int, int)>
    decreases n,
{
    if n <= 0 {
        Seq::empty()
    } else if parts[n - 1].0 < parts[n - 1].1 {
        spec_non_empty(parts, n - 1).push(parts[n - 1])
    } else {
        spec_non_empty(parts, n - 1)
    }
}

/// What lies behind the first `/dav/` of a URI, without trailing `/`.
pub open spec fn spec_uri_tail(uri: Seq<char>) -> Option<Seq<char>> {
    match find_from(uri, "/dav/"@, 0) {
        Some(i) => {
            let tail = uri.subrange(i + "/dav/"@.len(), uri.len() as int);
            Some(tail.take(trimmed_len(tail, '/')))
        },
        None => None,
    }
}

/// The segments of a URI that count: at most three, none empty.
pub open spec fn spec_uri_segments(uri: Seq<char>) -> Option<Seq<Seq<char>>> {
    match spec_uri_tail(uri) {
        Some(tail) => {
            let parts = spec_non_empty(spec_segments(tail), spec_segments(tail).len() as int);
            Some(Seq::new(parts.len(), |k: int| tail.subrange(parts[k].0, parts[k].1)))
        },
        None => None,
    }
}

/// What an account segment says.
pub open spec fn spec_account_ref(segment: Seq<char>) -> Option<Result<u32, Seq<char>>> {
    if segment.len() > 0 && segment[0] == '_' {
        match parse_unsigned(segment.subrange(1, segment.len() as int), 10, u32::MAX as int) {
            Some(id) => Some(Ok(id as u32)),
            None => None,
        }
    } else {
        Some(Err(spec_decode_path_element(segment)))
    }
}

/// What a URI says, as plain values: the collection, the account as an id
/// or a name, and the path.
pub struct UriPartsView {
    pub collection: Collection,
    pub account: Option<Result<u32, Seq<char>>>,
    pub resource: Option<Seq<char>>,
}

impl View for UriParts {
    type V = UriPartsView;

    open spec fn view(&self) -> UriPartsView {
        UriPartsView {
            collection: self.collection,
            account: match self.account {
                Some(AccountRef::Id(id)) => Some(Ok(id)),
                Some(AccountRef::Name(name)) => Some(Err(name@)),
                None => None,
            },
            resource: match self.resource {
                Some(path) => Some(path@),
                None => None,
            },
        }
    }
}

/// Reads a URI: what follows the first `/dav/` is the collection tag, the
/// account and the path. `None` where the URI has no `/dav/`, no known
/// collection tag, or an account of the form `_<id>` whose id is no number.
pub open spec fn spec_parse_uri(uri: Seq<char>) -> Option<UriPartsView> {
    match spec_uri_segments(uri) {
        Some(segments) => if segments.len() == 0 {
            None
        } else {
            match DavResourceName::spec_parse(segments[0]) {
                Some(name) => if segments.len() == 1 {
                    Some(
                        UriPartsView {
                            collection: name.spec_collection(),
                            account: None,
                            resource: None,
                        },
                    )
                } else {
                    match spec_account_ref(segments[1]) {
                        Some(account) => Some(
                            UriPartsView {
                                collection: name.spec_collection(),
                                account: Some(account),
                                resource: if segments.len() > 2 {
                                    Some(segments[2])
                                } else {
                                    None
                                },
                            },
                        ),
                        None => None,
                    }
                },
                None => None,
            }
        },
        None => None,
    }
}

/// Reads a URI without resolving its account.
pub fn parse_uri(uri: &str) -> (r: Result<UriParts, DavError>)
    ensures
        spec_parse_uri(uri@).is_none() ==> r == Err::<UriParts, DavError>(
            DavError::Code(status::NOT_FOUND),
        ),
        spec_parse_uri(uri@).is_some() ==> r.is_ok() && r.unwrap()@ == spec_parse_uri(uri@).unwrap(),
{
    let all = chars_of(uri);
    let marker = chars_of("/dav/");
    let start = match find(&all, &marker, 0) {
        Some(i) => i + marker.len(),
        None => {
            return Err(DavError::Code(status::NOT_FOUND));
        },
    };
    // The tail without trailing slashes, as a vector of its own.
    let mut tail: Vec<char> = Vec::new();
    let mut k: usize = start;
    while k < all.len()
        invariant
            start <= k <= all.len(),
            tail@ == all@.subrange(start as int, k as int),
        decreases all.len() - k,
    {
        tail.push(all[k]);
        assert(all@.subrange(start as int, k + 1) =~= all@.subrange(start as int, k as int).push(
            all@[k as int],
        ));
        k += 1;
    }
    let end = trim_end(&tail, '/');
    tail.truncate(end);
    let ghost t = tail@;
    assert(Some(t) == spec_uri_tail(uri@));
    // Up to three segments.
    let mut parts: Vec<(usize, usize)> = Vec::new();
    match find_char(&tail, '/', 0) {
        None => {
            parts.push((0, tail.len()));
        },
        Some(i) => {
            parts.push((0, i));
            match find_char(&tail, '/', i + 1) {
                None => {
                    parts.push((i + 1, tail.len()));
                },
                Some(j) => {
                    parts.push((i + 1, j));
                    parts.push((j + 1, tail.len()));
                },
            }
        },
    }
    let ghost segs = spec_segments(t);
    assert(parts@.len() == segs.len());
    assert(forall|n: int|
        0 <= n < parts@.len() ==> (#[trigger] parts@[n]).0 as int == segs[n].0 && parts@[n].1 as int
            == segs[n].1 && parts@[n].0 <= parts@[n].1 <= t.len());
    let mut kept: Vec<(usize, usize)> = Vec::new();
    let mut n: usize = 0;
    while n < parts.len()
        invariant
            n <= parts.len(),
            parts@.len() == segs.len(),
            forall|m: int|
                0 <= m < parts@.len() ==> (#[trigger] parts@[m]).0 as int == segs[m].0
                    && parts@[m].1 as int == segs[m].1 && parts@[m].0 <= parts@[m].1 <= t.len(),
            kept@.len() == spec_non_empty(segs, n as int).len(),
            forall|m: int|
                0 <= m < kept@.len() ==> (#[trigger] kept@[m]).0 as int == spec_non_empty(
                    segs,
                    n as int,
                )[m].0 && kept@[m].1 as int == spec_non_empty(segs, n as int)[m].1 && kept@[m].0
                    < kept@[m].1 <= t.len(),
        decreases parts.len() - n,
    {
        if parts[n].0 < parts[n].1 {
            kept.push(parts[n]);
        }
        n += 1;
    }
    let ghost segments = spec_uri_segments(uri@).unwrap();
    assert(segments.len() == kept@.len());
    assert(forall|m: int|
        0 <= m < kept@.len() ==> segments[m] == t.subrange(
            (#[trigger] kept@[m]).0 as int,
            kept@[m].1 as int,
        ));
    if kept.len() == 0 {
        return Err(DavError::Code(status::NOT_FOUND));
    }
    let name = match DavResourceName::parse_chars(&tail, kept[0].0, kept[0].1) {
        Some(name) => name,
        None => {
            return Err(DavError::Code(status::NOT_FOUND));
        },
    };
    let mut out = UriParts { collection: name.collection(), account: None, resource: None };
    if kept.len() > 1 {
        let (from, to) = kept[1];
        let ghost segment = t.subrange(from as int, to as int);
        if tail[from] == '_' {
            assert(segment[0] == t[from as int]);
            assert(segment.subrange(1, segment.len() as int) =~= t.subrange(from + 1, to as int));
            match read_unsigned(&tail, from + 1, to, 10, 0xffff_ffff) {
                Some(id) => {
                    out.account = Some(AccountRef::Id(id as u32));
                },
                None => {
                    return Err(DavError::Code(status::NOT_FOUND));
                },
            }
        } else {
            assert(segment[0] == t[from as int]);
            let raw = string_of(&tail, from, to);
            out.account = Some(AccountRef::Name(decode_path_element(raw.as_str())));
        }
        if kept.len() > 2 {
            out.resource = Some(string_of(&tail, kept[2].0, kept[2].1));
        }
    }
    Ok(out)
}


/// What a resolved URI says: the collection, the account and the path.
pub struct UriView {
    pub collection: Collection,
    pub account_id: Option<u32>,
    pub resource: Option<Seq<char>>,
}

impl View for UriResource<Option<u32>, Option<String>> {
    type V = UriView;

    open spec fn view(&self) -> UriView {
        UriView {
            collection: self.collection,
            account_id: self.account_id,
            resource: match self.resource {
                Some(path) => Some(path@),
                None => None,
            },
        }
    }
}

impl View for UriResource<u32, Option<String>> {
    type V = UriView;

    open spec fn view(&self) -> UriView {
        UriView {
            collection: self.collection,
            account_id: Some(self.account_id),
            resource: match self.resource {
                Some(path) => Some(path@),
                None => None,
            },
        }
    }
}

/// The name that the directory has to resolve before `validate_uri` can
/// answer: that of the URI's account, unless the URI gives an id or names
/// the token's own account.
pub open spec fn spec_lookup_name(access_token: &AccessToken, uri: Seq<char>) -> Option<Seq<char>> {
    match spec_parse_uri(uri) {
        Some(parts) => match parts.account {
            Some(Err(name)) => if name == access_token.name@ {
                None
            } else {
                Some(name)
            },
            _ => None,
        },
        None => None,
    }
}

/// What a URI resolves to for a token, `principal_id` being what the
/// directory answered for `spec_lookup_name`: 404 for a URI that cannot be
/// read or an account that nobody knows, 403 where the token may not enter
/// the collection of the account.
pub open spec fn spec_validate_uri(
    access_token: &AccessToken,
    uri: Seq<char>,
    principal_id: Option<u32>,
) -> Result<UriView, DavError> {
    match spec_parse_uri(uri) {
        None => Err(DavError::Code(status::NOT_FOUND)),
        Some(parts) => match parts.account {
            None => Ok(UriView { collection: parts.collection, account_id: None, resource: None }),
            Some(account) => {
                let id = match account {
                    Ok(id) => Some(id),
                    Err(name) => if name == access_token.name@ {
                        Some(access_token.primary_id)
                    } else {
                        principal_id
                    },
                };
                match id {
                    None => Err(DavError::Code(status::NOT_FOUND)),
                    Some(id) => if parts.collection != Collection::Principal
                        && !access_token.spec_has_access(id, parts.collection) {
                        Err(DavError::Code(status::FORBIDDEN))
                    } else {
                        Ok(
                            UriView {
                                collection: parts.collection,
                                account_id: Some(id),
                                resource: parts.resource,
                            },
                        )
                    },
                }
            },
        },
    }
}

/// What a result of `validate_uri` says.
pub open spec fn uri_result(r: Result<UnresolvedUri, DavError>) -> Result<UriView, DavError> {
    match r {
        Ok(uri) => Ok(uri@),
        Err(e) => Err(e),
    }
}

/// The name of the account of `uri` that the directory has to resolve, if
/// any.
pub fn lookup_name(access_token: &AccessToken, uri: &str) -> (r: Option<String>)
    ensures
        r.is_some() == spec_lookup_name(access_token, uri@).is_some(),
        r.is_some() ==> r.unwrap()@ == spec_lookup_name(access_token, uri@).unwrap(),
{
    match parse_uri(uri) {
        Ok(parts) => match parts.account {
            Some(AccountRef::Name(name)) => {
                if crate::text::same_text(name.as_str(), access_token.name.as_str()) {
                    None
                } else {
                    Some(name)
                }
            },
            _ => None,
        },
        Err(_) => None,
    }
}

/// Resolves a request URI for a token. `principal_id` is the directory's
/// answer for the name that `lookup_name` gives.
pub fn validate_uri(access_token: &AccessToken, uri: &str, principal_id: Option<u32>) -> (r: Result<
    UnresolvedUri,
    DavError,
>)
    ensures
        uri_result(r) == spec_validate_uri(access_token, uri@, principal_id),
{
    let parts = match parse_uri(uri) {
        Ok(parts) => parts,
        Err(e) => {
            return Err(e);
        },
    };
    let collection = parts.collection;
    let account = match parts.account {
        Some(account) => account,
        None => {
            return Ok(UriResource { collection, account_id: None, resource: None });
        },
    };
    let id = match account {
        AccountRef::Id(id) => Some(id),
        AccountRef::Name(name) => {
            if crate::text::same_text(name.as_str(), access_token.name.as_str()) {
                Some(access_token.primary_id)
            } else {
                principal_id
            }
        },
    };
    let account_id = match id {
        Some(id) => id,
        None => {
            return Err(DavError::Code(status::NOT_FOUND));
        },
    };
    if collection != Collection::Principal && !access_token.has_access(account_id, collection) {
        return Err(DavError::Code(status::FORBIDDEN));
    }
    Ok(UriResource { collection, account_id: Some(account_id), resource: parts.resource })
}

impl UriResource<Option<u32>, Option<String>> {
    /// The URI with its account, or 403 where it names none.
    pub fn into_owned_uri(self) -> (r: Result<OwnedUri, DavError>)
        ensures
            self.account_id.is_none() ==> r == Err::<OwnedUri, DavError>(
                DavError::Code(status::FORBIDDEN),
            ),
            self.account_id.is_some() ==> r.is_ok() && r.unwrap().collection == self.collection
                && r.unwrap().account_id == self.account_id.unwrap() && r.unwrap().resource
                == self.resource,
    {
        match self.account_id {
            Some(account_id) => Ok(
                UriResource { collection: self.collection, account_id, resource: self.resource },
            ),
            None => Err(DavError::Code(status::FORBIDDEN)),
        }
    }
}

impl UriResource<u32, Option<String>> {
    /// A URI of the account `account_id`.
    pub fn new_owned(collection: Collection, account_id: u32, resource: Option<String>) -> (r:
        OwnedUri)
        ensures
            r.collection == collection,
            r.account_id == account_id,
            r.resource == resource,
    {
        UriResource { collection, account_id, resource }
    }
}

impl<A, R> UriResource<A, R> {
    /// The URI prefix of the profile that the URI addresses.
    pub fn collection_path(&self) -> (r: &'static str)
        ensures
            r@ == DavResourceName::spec_of(self.collection).spec_collection_path(),
    {
        DavResourceName::of(self.collection).collection_path()
    }
}

/// The collection of a resolved resource: that of the URI for a container
/// and for any file node, else the collection of the items that the URI's
/// collection holds.
pub open spec fn spec_resolved_collection(collection: Collection, is_container: bool) -> Collection {
    if is_container || collection == Collection::FileNode {
        collection
    } else if collection == Collection::Calendar {
        Collection::CalendarEvent
    } else {
        Collection::ContactCard
    }
}

/// The document that a URI names in a hierarchy.
pub open spec fn spec_map_uri_resource(resources: &DavResources, uri: &OwnedUri) -> Option<
    DocumentUri,
> {
    match uri.resource {
        Some(path) => match resources.spec_by_name(path@) {
            Some(found) => Some(
                UriResource {
                    collection: spec_resolved_collection(uri.collection, found.is_container),
                    account_id: uri.account_id,
                    resource: found.document_id,
                },
            ),
            None => None,
        },
        None => None,
    }
}

/// Maps a URI to the document that it names in the hierarchy of its
/// account.
pub fn map_uri_resource(resources: &DavResources, uri: &OwnedUri) -> (r: Option<DocumentUri>)
    ensures
        r == spec_map_uri_resource(resources, uri),
{
    let path = match &uri.resource {
        Some(path) => path,
        None => {
            return None;
        },
    };
    match resources.by_name(path.as_str()) {
        Some(found) => Some(
            UriResource {
                collection: if found.is_container || uri.collection == Collection::FileNode {
                    uri.collection
                } else if uri.collection == Collection::Calendar {
                    Collection::CalendarEvent
                } else {
                    Collection::ContactCard
                },
                account_id: uri.account_id,
                resource: found.document_id,
            },
        ),
        None => None,
    }
}

proof fn lemma_name_index(resources: &DavResources, i: int, from: int)
    requires
        resources.wf(),
        0 <= from <= i < resources.paths@.len(),
    ensures
        resources.spec_name_index(resources.paths@[i].name@, from) == Some(i),
    decreases i - from,
{
    if from < i {
        assert(resources.paths@[from].name@ != resources.paths@[i].name@);
        lemma_name_index(resources, i, from + 1);
    }
}

/// The path of every resource of a hierarchy resolves back to that
/// resource: a URI with the path of the `i`-th entry maps to that entry's
/// document, in the collection of a container or of an item as the entry
/// is one.
pub proof fn lemma_uri_round_trip(resources: &DavResources, uri: &OwnedUri, i: int)
    requires
        resources.wf(),
        0 <= i < resources.paths@.len(),
        uri.resource.is_some(),
        uri.resource.unwrap()@ == resources.paths@[i].name@,
    ensures
        spec_map_uri_resource(resources, uri).is_some(),
        spec_map_uri_resource(resources, uri).unwrap().resource
            == resources.paths@[i].document_id,
        spec_map_uri_resource(resources, uri).unwrap().account_id == uri.account_id,
        spec_map_uri_resource(resources, uri).unwrap().collection == spec_resolved_collection(
            uri.collection,
            resources.paths@[i].is_container,
        ),
{
    lemma_name_index(resources, i, 0);
}

/// The internal names of lock tokens and sync cursors.
#[derive(Debug, Clone, Copy, PartialEq, Eq, Structural)]
pub enum Urn {
    Lock(u64),
    Sync(u64),
}

impl Urn {
    /// Reads `urn:stalwart:davlock:<hex>` and `urn:stalwart:davsync:<hex>`.
    /// The number is an optional `+` and hexadecimal digits of either case,
    /// and fits 64 bits.
    pub open spec fn spec_parse(s: Seq<char>) -> Option<Urn> {
        let prefix = "urn:stalwart:"@;
        if matches_at(s, prefix, 0) {
            match find_char_from(s, ':', prefix.len() as int) {
                Some(i) => {
                    let kind = s.subrange(prefix.len() as int, i);
                    let id = parse_unsigned(s.subrange(i + 1, s.len() as int), 16, u64::MAX as int);
                    if id.is_none() {
                        None
                    } else if kind == "davlock"@ {
                        Some(Urn::Lock(id.unwrap() as u64))
                    } else if kind == "davsync"@ {
                        Some(Urn::Sync(id.unwrap() as u64))
                    } else {
                        None
                    }
                },
                None => None,
            }
        } else {
            None
        }
    }

    /// The URN as text: the number as 16 digits of lower-case
    /// hexadecimal.
    pub open spec fn spec_text(self) -> Seq<char> {
        match self {
            Urn::Lock(id) => "urn:stalwart:davlock:"@ + fixed_hex(id as nat, 16),
            Urn::Sync(id) => "urn:stalwart:davsync:"@ + fixed_hex(id as nat, 16),
        }
    }

    /// Reads a URN; `None` for anything else.
    pub fn parse(input: &str) -> (r: Option<Urn>)
        ensures
            r == Self::spec_parse(input@),
    {
        let s = chars_of(input);
        let prefix = chars_of("urn:stalwart:");
        if !has_at(&s, 0, &prefix) {
            return None;
        }
        let colon = match find_char(&s, ':', prefix.len()) {
            Some(i) => i,
            None => {
                return None;
            },
        };
        let id = match read_unsigned(&s, colon + 1, s.len(), 16, u64::MAX) {
            Some(id) => id,
            None => {
                return None;
            },
        };
        if same_chars(&s, prefix.len(), colon, &chars_of("davlock")) {
            Some(Urn::Lock(id))
        } else if same_chars(&s, prefix.len(), colon, &chars_of("davsync")) {
            Some(Urn::Sync(id))
        } else {
            None
        }
    }

    /// The number of a lock token.
    pub fn try_unwrap_lock(&self) -> (r: Option<u64>)
        ensures
            r == (match *self {
                Urn::Lock(id) => Some(id),
                _ => None,
            }),
    {
        match self {
            Urn::Lock(id) => Some(*id),
            _ => None,
        }
    }

    /// The number of a sync cursor.
    pub fn try_unwrap_sync(&self) -> (r: Option<u64>)
        ensures
            r == (match *self {
                Urn::Sync(id) => Some(id),
                _ => None,
            }),
    {
        match self {
            Urn::Sync(id) => Some(*id),
            _ => None,
        }
    }

    /// The URN as text.
    pub fn to_string(&self) -> (r: String)
        ensures
            r@ == self.spec_text(),
    {
        match self {
            Urn::Lock(id) => {
                let mut out = "urn:stalwart:davlock:".to_owned();
                write_fixed_hex(*id, 16, &mut out);
                out
            },
            Urn::Sync(id) => {
                let mut out = "urn:stalwart:davsync:".to_owned();
                write_fixed_hex(*id, 16, &mut out);
                out
            },
        }
    }
}

/// A URN that is written and then read is the same URN.
pub proof fn lemma_urn_round_trip(urn: Urn)
    ensures
        Urn::spec_parse(urn.spec_text()) == Some(urn),
{
    reveal_strlit("urn:stalwart:");
    reveal_strlit("urn:stalwart:davlock:");
    reveal_strlit("urn:stalwart:davsync:");
    reveal_strlit("davlock");
    reveal_strlit("davsync");
    let t = urn.spec_text();
    let id: u64 = match urn {
        Urn::Lock(id) => id,
        Urn::Sync(id) => id,
    };
    reveal_with_fuel(pow16, 17);
    assert(pow16(16) == 0x1_0000_0000_0000_0000);
    lemma_hex_round_trip(id as nat, 16, u64::MAX as int);
    assert(t.subrange(0, 13) =~= "urn:stalwart:"@);
    reveal_with_fuel(find_char_from, 10);
    assert(find_char_from(t, ':', 13) == Some(20int));
    assert(t.subrange(21, t.len() as int) =~= fixed_hex(id as nat, 16));
    match urn {
        Urn::Lock(_) => {
            assert(t.subrange(13, 20) =~= "davlock"@);
        },
        Urn::Sync(_) => {
            assert(t.subrange(13, 20) =~= "davsync"@);
            assert(t.subrange(13, 20)[3] != "davlock"@[3]);
        },
    }
}

} // verus!
