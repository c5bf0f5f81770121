//! Entity ids and their prefix registry: every id is `<prefix>_<ULID>`, where the ULID body
//! is 26 chars of Crockford Base32 (digits and capitals without I, L, O, U).

use vstd::prelude::*;
use vstd::string::*;
use crate::text::{chars_of, chars_eq_range, find_char, string_of_range, str_eq};

verus! {

broadcast use vstd::string::group_string_axioms;

/// The ULID body as a pattern fragment.
pub const ULID_BODY: &'static str = "[0-9A-HJKMNP-TV-Z]{26}";

/// A char of the Crockford Base32 alphabet used by ULIDs.
pub open spec fn is_crockford(c: char) -> bool {
    ||| '0' <= c <= '9'
    ||| 'A' <= c <= 'H'
    ||| c == 'J' || c == 'K' || c == 'M' || c == 'N'
    ||| 'P' <= c <= 'T'
    ||| 'V' <= c <= 'Z'
}

/// A ULID body: exactly 26 Crockford Base32 chars.
pub open spec fn ulid_body(s: Seq<char>) -> bool {
    &&& s.len() == 26
    &&& forall|i: int| 0 <= i < 26 ==> is_crockford(#[trigger] s[i])
}

/// `raw` is a full id with the given prefix: `<prefix>_<ULID>`, the prefix itself holding no `_`.
pub open spec fn is_id_of(prefix: Seq<char>, raw: Seq<char>) -> bool {
    &&& !prefix.contains('_')
    &&& raw.len() == prefix.len() + 27
    &&& raw.subrange(0, prefix.len() as int) == prefix
    &&& raw[prefix.len() as int] == '_'
    &&& ulid_body(raw.subrange(prefix.len() as int + 1, raw.len() as int))
}

/// A lower-case ASCII letter.
pub open spec fn is_ascii_lower(c: char) -> bool {
    'a' <= c <= 'z'
}

/// A cross-entity id reference: three lower-case letters, `_`, and a ULID body.
pub open spec fn is_id_ref(raw: Seq<char>) -> bool {
    &&& raw.len() == 30
    &&& is_ascii_lower(raw[0]) && is_ascii_lower(raw[1]) && is_ascii_lower(raw[2])
    &&& raw[3] == '_'
    &&& ulid_body(raw.subrange(4, 30))
}

/// The message of a failed full-id parse.
pub open spec fn id_parse_error_text(kind_name: Seq<char>, prefix: Seq<char>, raw: Seq<char>) -> Seq<char> {
    "非法 "@ + kind_name + "："@ + raw + "（期望 `"@ + prefix + "_<26 位 ULID>`）"@
}

/// The message of a failed bare-ULID construction.
pub open spec fn ulid_error_text(ulid: Seq<char>) -> Seq<char> {
    "非法 ULID："@ + ulid + "（期望 26 位 Crockford Base32）"@
}

/// The message of a failed id-reference parse.
pub open spec fn id_ref_error_text(raw: Seq<char>) -> Seq<char> {
    "非法实体 ID 引用："@ + raw + "（期望 `<前缀>_<26 位 ULID>`）"@
}

fn is_crockford_char(c: char) -> (r: bool)
    ensures
        r == is_crockford(c),
{
    ('0' <= c && c <= '9') || ('A' <= c && c <= 'H') || c == 'J' || c == 'K' || c == 'M'
        || c == 'N' || ('P' <= c && c <= 'T') || ('V' <= c && c <= 'Z')
}

/// Whether `v[from..to]` is a ULID body.
fn ulid_range(v: &Vec<char>, from: usize, to: usize) -> (r: bool)
    requires
        from <= to <= v.len(),
    ensures
        r == ulid_body(v@.subrange(from as int, to as int)),
{
    if to - from != 26 {
        return false;
    }
    let mut i = from;
    while i < to
        invariant
            from <= i <= to <= v.len(),
            to - from == 26,
            forall|j: int| from <= j < i ==> is_crockford(v@[j]),
        decreases to - i,
    {
        if !is_crockford_char(v[i]) {
            assert(!is_crockford(v@.subrange(from as int, to as int)[i - from]));
            return false;
        }
        i = i + 1;
    }
    assert forall|j: int| 0 <= j < 26 implies is_crockford(
        #[trigger] v@.subrange(from as int, to as int)[j],
    ) by {
        assert(v@.subrange(from as int, to as int)[j] == v@[from + j]);
    }
    true
}

/// Checks a ULID body (26 Crockford Base32 chars).
pub fn is_valid_ulid(ulid: &str) -> (r: bool)
    ensures
        r == ulid_body(ulid@),
{
    let v = chars_of(ulid);
    assert(v@.subrange(0, v@.len() as int) == v@);
    ulid_range(&v, 0, v.len())
}

/// Checks a full id `<prefix>_<ULID>`: the text before the first `_` must be `prefix` and
/// the rest a ULID body.
pub fn is_valid_id(prefix: &str, raw: &str) -> (r: bool)
    ensures
        r == is_id_of(prefix@, raw@),
{
    let v = chars_of(raw);
    let p = chars_of(prefix);
    match find_char(&v, '_', 0) {
        None => {
            proof {
                if is_id_of(prefix@, raw@) {
                    assert(v@[p@.len() as int] == '_');
                }
            }
            false
        },
        Some(i) => {
            let same_prefix = chars_eq_range(&v, 0, i, &p);
            if !same_prefix {
                proof {
                    if is_id_of(prefix@, raw@) {
                        if i < p@.len() {
                            assert(p@[i as int] == v@.subrange(0, p@.len() as int)[i as int]);
                            assert(p@.contains('_'));
                        } else {
                            assert(v@[p@.len() as int] == '_');
                            assert(v@.subrange(0, i as int) =~= p@);
                        }
                    }
                }
                return false;
            }
            let ok = ulid_range(&v, i + 1, v.len());
            proof {
                assert(v@.subrange(0, i as int) == p@);
                if p@.contains('_') {
                    let k = choose|k: int| 0 <= k < p@.len() && p@[k] == '_';
                    assert(v@[k] == p@[k]);
                }
                if ok {
                    assert(v@.subrange(i + 1, v@.len() as int).len() == 26);
                }
            }
            ok
        },
    }
}

/// Builds the error message of a failed full-id parse.
fn id_parse_error(kind_name: &str, prefix: &str, raw: &str) -> (m: String)
    ensures
        m@ == id_parse_error_text(kind_name@, prefix@, raw@),
{
    let mut m = "非法 ".to_owned();
    m.append(kind_name);
    m.append("：");
    m.append(raw);
    m.append("（期望 `");
    m.append(prefix);
    m.append("_<26 位 ULID>`）");
    m
}

/// Parses a full id of the given prefix; the error names `kind_name`.
fn parse_prefixed(prefix: &str, kind_name: &str, raw: &str) -> (r: Result<String, String>)
    ensures
        r is Ok <==> is_id_of(prefix@, raw@),
        r matches Ok(s) ==> s@ == raw@,
        r matches Err(m) ==> m@ == id_parse_error_text(kind_name@, prefix@, raw@),
{
    if is_valid_id(prefix, raw) {
        Ok(raw.to_owned())
    } else {
        Err(id_parse_error(kind_name, prefix, raw))
    }
}

/// Builds `<prefix>_<ulid>` from a bare ULID body.
fn join_prefixed(prefix: &str, ulid: &str) -> (r: Result<String, String>)
    requires
        !prefix@.contains('_'),
    ensures
        r is Ok <==> ulid_body(ulid@),
        r matches Ok(s) ==> s@ == prefix@ + "_"@ + ulid@ && is_id_of(prefix@, s@),
        r matches Err(m) ==> m@ == ulid_error_text(ulid@),
{
    if is_valid_ulid(ulid) {
        let mut s = prefix.to_owned();
        s.append("_");
        s.append(ulid);
        proof {
            reveal_strlit("_");
            let t = prefix@ + "_"@ + ulid@;
            assert(t.subrange(0, prefix@.len() as int) =~= prefix@);
            assert(t.subrange(prefix@.len() as int + 1, t.len() as int) =~= ulid@);
        }
        Ok(s)
    } else {
        let mut m = "非法 ULID：".to_owned();
        m.append(ulid);
        m.append("（期望 26 位 Crockford Base32）");
        Err(m)
    }
}

/// An id built from a prefix (without `_`) and a ULID body is an id of that prefix, and
/// the ULID body is what follows the prefix.
pub proof fn law_prefixed_ulid_is_id(prefix: Seq<char>, ulid: Seq<char>)
    requires
        !prefix.contains('_'),
        ulid_body(ulid),
    ensures
        is_id_of(prefix, prefix + "_"@ + ulid),
        (prefix + "_"@ + ulid).subrange(prefix.len() as int + 1, prefix.len() as int + 27) == ulid,
{
    reveal_strlit("_");
    let t = prefix + "_"@ + ulid;
    assert(t.subrange(0, prefix.len() as int) =~= prefix);
    assert(t.subrange(prefix.len() as int + 1, t.len() as int) =~= ulid);
}

/// Every full id whose prefix is three lower-case letters is also a valid cross-entity
/// reference (all registered prefixes but `cred` are such).
pub proof fn law_full_id_is_reference(prefix: Seq<char>, raw: Seq<char>)
    requires
        is_id_of(prefix, raw),
        prefix.len() == 3,
        is_ascii_lower(prefix[0]) && is_ascii_lower(prefix[1]) && is_ascii_lower(prefix[2]),
    ensures
        is_id_ref(raw),
{
    assert(raw[0] == raw.subrange(0, 3)[0]);
    assert(raw[1] == raw.subrange(0, 3)[1]);
    assert(raw[2] == raw.subrange(0, 3)[2]);
    assert(raw.subrange(4, 30) =~= raw.subrange(prefix.len() as int + 1, raw.len() as int));
}

/// A text is an id of at most one prefix.
pub proof fn law_id_prefix_unique(p1: Seq<char>, p2: Seq<char>, raw: Seq<char>)
    requires
        is_id_of(p1, raw),
        is_id_of(p2, raw),
    ensures
        p1 == p2,
{
    if p1.len() < p2.len() {
        assert(p2[p1.len() as int] == raw[p1.len() as int]);
        assert(p2.contains('_'));
    } else if p2.len() < p1.len() {
        assert(p1[p2.len() as int] == raw[p2.len() as int]);
        assert(p1.contains('_'));
    } else {
        assert(p1 =~= raw.subrange(0, p1.len() as int));
    }
}

/// A reference to an entity of any registered prefix (used where a field may point at
/// entities of several kinds).
#[derive(Debug, PartialEq, Eq, Hash)]
pub struct IdStr(String);

impl Clone for IdStr {
    fn clone(&self) -> (r: Self)
        ensures
            r@ == self@,
    {
        proof {
            use_type_invariant(self);
        }
        Self(self.0.clone())
    }
}

impl View for IdStr {
    type V = Seq<char>;

    closed spec fn view(&self) -> Seq<char> {
        self.0@
    }
}

impl IdStr {
    /// Every reference has a prefix of three lower-case letters and a ULID body.
    #[verifier::type_invariant]
    spec fn well_formed(self) -> bool {
        is_id_ref(self.0@)
    }

    /// Parses a reference: three lower-case letters, `_`, and a ULID body (30 chars in all).
    pub fn parse(raw: &str) -> (r: Result<Self, String>)
        ensures
            r is Ok <==> is_id_ref(raw@),
            r matches Ok(id) ==> id@ == raw@,
            r matches Err(m) ==> m@ == id_ref_error_text(raw@),
    {
        let v = chars_of(raw);
        let ok = v.len() == 30 && is_lower(v[0]) && is_lower(v[1]) && is_lower(v[2]) && v[3]
            == '_' && ulid_range(&v, 4, 30);
        if ok {
            Ok(IdStr(raw.to_owned()))
        } else {
            let mut m = "非法实体 ID 引用：".to_owned();
            m.append(raw);
            m.append("（期望 `<前缀>_<26 位 ULID>`）");
            Err(m)
        }
    }

    /// The full reference text.
    pub fn as_str(&self) -> (s: &str)
        ensures
            s@ == self@,
            is_id_ref(self@),
    {
        proof {
            use_type_invariant(self);
        }
        self.0.as_str()
    }
}

fn is_lower(c: char) -> (r: bool)
    ensures
        r == is_ascii_lower(c),
{
    'a' <= c && c <= 'z'
}

} // verus!

verus! {

/// Id of a project: `prj_<ULID>`.
#[derive(Debug, PartialEq, Eq, Hash, Ord, PartialOrd)]
pub struct ProjectId(String);

impl Clone for ProjectId {
    fn clone(&self) -> (r: Self)
        ensures
            r@ == self@,
    {
        proof {
            use_type_invariant(self);
        }
        Self(self.0.clone())
    }
}

impl View for ProjectId {
    type V = Seq<char>;

    closed spec fn view(&self) -> Seq<char> {
        self.0@
    }
}

impl ProjectId {
    /// The registered prefix.
    pub const PREFIX: &'static str = "prj";

    /// Every id has the registered prefix and a ULID body.
    #[verifier::type_invariant]
    spec fn well_formed(self) -> bool {
        is_id_of("prj"@, self.0@)
    }

    /// Parses a full id, checking the prefix and the ULID body.
    pub fn parse(raw: &str) -> (r: Result<Self, String>)
        ensures
            r is Ok <==> is_id_of("prj"@, raw@),
            r matches Ok(id) ==> id@ == raw@,
            r matches Err(m) ==> m@ == id_parse_error_text("ProjectId"@, "prj"@, raw@),
    {
        match parse_prefixed(Self::PREFIX, "ProjectId", raw) {
            Ok(s) => Ok(ProjectId(s)),
            Err(m) => Err(m),
        }
    }

    /// Builds the id from a bare ULID body by adding the prefix.
    pub fn from_ulid(ulid: &str) -> (r: Result<Self, String>)
        ensures
            r is Ok <==> ulid_body(ulid@),
            r matches Ok(id) ==> id@ == "prj"@ + "_"@ + ulid@ && is_id_of("prj"@, id@),
            r matches Err(m) ==> m@ == ulid_error_text(ulid@),
    {
        proof {
            reveal_strlit("prj");
        }
        match join_prefixed(Self::PREFIX, ulid) {
            Ok(s) => Ok(ProjectId(s)),
            Err(m) => Err(m),
        }
    }

    /// The full id text.
    pub fn as_str(&self) -> (s: &str)
        ensures
            s@ == self@,
            is_id_of("prj"@, self@),
    {
        proof {
            use_type_invariant(self);
        }
        self.0.as_str()
    }

    /// A copy of the id.
    pub fn duplicate(&self) -> (r: Self)
        ensures
            r@ == self@,
    {
        proof {
            use_type_invariant(self);
        }
        Self(self.0.clone())
    }
}

impl std::str::FromStr for ProjectId {
    type Err = String;

    fn from_str(s: &str) -> (r: Result<Self, String>)
        ensures
            r is Ok <==> is_id_of("prj"@, s@),
            r matches Ok(id) ==> id@ == s@,
            r matches Err(m) ==> m@ == id_parse_error_text("ProjectId"@, "prj"@, s@),
    {
        Self::parse(s)
    }
}

/// Id of a project stage: `stg_<ULID>`.
#[derive(Debug, PartialEq, Eq, Hash, Ord, PartialOrd)]
pub struct StageId(String);

impl Clone for StageId {
    fn clone(&self) -> (r: Self)
        ensures
            r@ == self@,
    {
        proof {
            use_type_invariant(self);
        }
        Self(self.0.clone())
    }
}

impl View for StageId {
    type V = Seq<char>;

    closed spec fn view(&self) -> Seq<char> {
        self.0@
    }
}

impl StageId {
    /// The registered prefix.
    pub const PREFIX: &'static str = "stg";

    /// Every id has the registered prefix and a ULID body.
    #[verifier::type_invariant]
    spec fn well_formed(self) -> bool {
        is_id_of("stg"@, self.0@)
    }

    /// Parses a full id, checking the prefix and the ULID body.
    pub fn parse(raw: &str) -> (r: Result<Self, String>)
        ensures
            r is Ok <==> is_id_of("stg"@, raw@),
            r matches Ok(id) ==> id@ == raw@,
            r matches Err(m) ==> m@ == id_parse_error_text("StageId"@, "stg"@, raw@),
    {
        match parse_prefixed(Self::PREFIX, "StageId", raw) {
            Ok(s) => Ok(StageId(s)),
            Err(m) => Err(m),
        }
    }

    /// Builds the id from a bare ULID body by adding the prefix.
    pub fn from_ulid(ulid: &str) -> (r: Result<Self, String>)
        ensures
            r is Ok <==> ulid_body(ulid@),
            r matches Ok(id) ==> id@ == "stg"@ + "_"@ + ulid@ && is_id_of("stg"@, id@),
            r matches Err(m) ==> m@ == ulid_error_text(ulid@),
    {
        proof {
            reveal_strlit("stg");
        }
        match join_prefixed(Self::PREFIX, ulid) {
            Ok(s) => Ok(StageId(s)),
            Err(m) => Err(m),
        }
    }

    /// The full id text.
    pub fn as_str(&self) -> (s: &str)
        ensures
            s@ == self@,
            is_id_of("stg"@, self@),
    {
        proof {
            use_type_invariant(self);
        }
        self.0.as_str()
    }

    /// A copy of the id.
    pub fn duplicate(&self) -> (r: Self)
        ensures
            r@ == self@,
    {
        proof {
            use_type_invariant(self);
        }
        Self(self.0.clone())
    }
}

impl std::str::FromStr for StageId {
    type Err = String;

    fn from_str(s: &str) -> (r: Result<Self, String>)
        ensures
            r is Ok <==> is_id_of("stg"@, s@),
            r matches Ok(id) ==> id@ == s@,
            r matches Err(m) ==> m@ == id_parse_error_text("StageId"@, "stg"@, s@),
    {
        Self::parse(s)
    }
}

/// Id of a tag of the global pool: `tag_<ULID>`.
#[derive(Debug, PartialEq, Eq, Hash, Ord, PartialOrd)]
pub struct TagId(String);

impl Clone for TagId {
    fn clone(&self) -> (r: Self)
        ensures
            r@ == self@,
    {
        proof {
            use_type_invariant(self);
        }
        Self(self.0.clone())
    }
}

impl View for TagId {
    type V = Seq<char>;

    closed spec fn view(&self) -> Seq<char> {
        self.0@
    }
}

impl TagId {
    /// The registered prefix.
    pub const PREFIX: &'static str = "tag";

    /// Every id has the registered prefix and a ULID body.
    #[verifier::type_invariant]
    spec fn well_formed(self) -> bool {
        is_id_of("tag"@, self.0@)
    }

    /// Parses a full id, checking the prefix and the ULID body.
    pub fn parse(raw: &str) -> (r: Result<Self, String>)
        ensures
            r is Ok <==> is_id_of("tag"@, raw@),
            r matches Ok(id) ==> id@ == raw@,
            r matches Err(m) ==> m@ == id_parse_error_text("TagId"@, "tag"@, raw@),
    {
        match parse_prefixed(Self::PREFIX, "TagId", raw) {
            Ok(s) => Ok(TagId(s)),
            Err(m) => Err(m),
        }
    }

    /// Builds the id from a bare ULID body by adding the prefix.
    pub fn from_ulid(ulid: &str) -> (r: Result<Self, String>)
        ensures
            r is Ok <==> ulid_body(ulid@),
            r matches Ok(id) ==> id@ == "tag"@ + "_"@ + ulid@ && is_id_of("tag"@, id@),
            r matches Err(m) ==> m@ == ulid_error_text(ulid@),
    {
        proof {
            reveal_strlit("tag");
        }
        match join_prefixed(Self::PREFIX, ulid) {
            Ok(s) => Ok(TagId(s)),
            Err(m) => Err(m),
        }
    }

    /// The full id text.
    pub fn as_str(&self) -> (s: &str)
        ensures
            s@ == self@,
            is_id_of("tag"@, self@),
    {
        proof {
            use_type_invariant(self);
        }
        self.0.as_str()
    }

    /// A copy of the id.
    pub fn duplicate(&self) -> (r: Self)
        ensures
            r@ == self@,
    {
        proof {
            use_type_invariant(self);
        }
        Self(self.0.clone())
    }
}

impl std::str::FromStr for TagId {
    type Err = String;

    fn from_str(s: &str) -> (r: Result<Self, String>)
        ensures
            r is Ok <==> is_id_of("tag"@, s@),
            r matches Ok(id) ==> id@ == s@,
            r matches Err(m) ==> m@ == id_parse_error_text("TagId"@, "tag"@, s@),
    {
        Self::parse(s)
    }
}

/// Id of a note (item): `itm_<ULID>`.
#[derive(Debug, PartialEq, Eq, Hash, Ord, PartialOrd)]
pub struct NoteId(String);

impl Clone for NoteId {
    fn clone(&self) -> (r: Self)
        ensures
            r@ == self@,
    {
        proof {
            use_type_invariant(self);
        }
        Self(self.0.clone())
    }
}

impl View for NoteId {
    type V = Seq<char>;

    closed spec fn view(&self) -> Seq<char> {
        self.0@
    }
}

impl NoteId {
    /// The registered prefix.
    pub const PREFIX: &'static str = "itm";

    /// Every id has the registered prefix and a ULID body.
    #[verifier::type_invariant]
    spec fn well_formed(self) -> bool {
        is_id_of("itm"@, self.0@)
    }

    /// Parses a full id, checking the prefix and the ULID body.
    pub fn parse(raw: &str) -> (r: Result<Self, String>)
        ensures
            r is Ok <==> is_id_of("itm"@, raw@),
            r matches Ok(id) ==> id@ == raw@,
            r matches Err(m) ==> m@ == id_parse_error_text("NoteId"@, "itm"@, raw@),
    {
        match parse_prefixed(Self::PREFIX, "NoteId", raw) {
            Ok(s) => Ok(NoteId(s)),
            Err(m) => Err(m),
        }
    }

    /// Builds the id from a bare ULID body by adding the prefix.
    pub fn from_ulid(ulid: &str) -> (r: Result<Self, String>)
        ensures
            r is Ok <==> ulid_body(ulid@),
            r matches Ok(id) ==> id@ == "itm"@ + "_"@ + ulid@ && is_id_of("itm"@, id@),
            r matches Err(m) ==> m@ == ulid_error_text(ulid@),
    {
        proof {
            reveal_strlit("itm");
        }
        match join_prefixed(Self::PREFIX, ulid) {
            Ok(s) => Ok(NoteId(s)),
            Err(m) => Err(m),
        }
    }

    /// The full id text.
    pub fn as_str(&self) -> (s: &str)
        ensures
            s@ == self@,
            is_id_of("itm"@, self@),
    {
        proof {
            use_type_invariant(self);
        }
        self.0.as_str()
    }

    /// A copy of the id.
    pub fn duplicate(&self) -> (r: Self)
        ensures
            r@ == self@,
    {
        proof {
            use_type_invariant(self);
        }
        Self(self.0.clone())
    }
}

impl std::str::FromStr for NoteId {
    type Err = String;

    fn from_str(s: &str) -> (r: Result<Self, String>)
        ensures
            r is Ok <==> is_id_of("itm"@, s@),
            r matches Ok(id) ==> id@ == s@,
            r matches Err(m) ==> m@ == id_parse_error_text("NoteId"@, "itm"@, s@),
    {
        Self::parse(s)
    }
}

/// Id of a file version: `ver_<ULID>`.
#[derive(Debug, PartialEq, Eq, Hash, Ord, PartialOrd)]
pub struct FileVersionId(String);

impl Clone for FileVersionId {
    fn clone(&self) -> (r: Self)
        ensures
            r@ == self@,
    {
        proof {
            use_type_invariant(self);
        }
        Self(self.0.clone())
    }
}

impl View for FileVersionId {
    type V = Seq<char>;

    closed spec fn view(&self) -> Seq<char> {
        self.0@
    }
}

impl FileVersionId {
    /// The registered prefix.
    pub const PREFIX: &'static str = "ver";

    /// Every id has the registered prefix and a ULID body.
    #[verifier::type_invariant]
    spec fn well_formed(self) -> bool {
        is_id_of("ver"@, self.0@)
    }

    /// Parses a full id, checking the prefix and the ULID body.
    pub fn parse(raw: &str) -> (r: Result<Self, String>)
        ensures
            r is Ok <==> is_id_of("ver"@, raw@),
            r matches Ok(id) ==> id@ == raw@,
            r matches Err(m) ==> m@ == id_parse_error_text("FileVersionId"@, "ver"@, raw@),
    {
        match parse_prefixed(Self::PREFIX, "FileVersionId", raw) {
            Ok(s) => Ok(FileVersionId(s)),
            Err(m) => Err(m),
        }
    }

    /// Builds the id from a bare ULID body by adding the prefix.
    pub fn from_ulid(ulid: &str) -> (r: Result<Self, String>)
        ensures
            r is Ok <==> ulid_body(ulid@),
            r matches Ok(id) ==> id@ == "ver"@ + "_"@ + ulid@ && is_id_of("ver"@, id@),
            r matches Err(m) ==> m@ == ulid_error_text(ulid@),
    {
        proof {
            reveal_strlit("ver");
        }
        match join_prefixed(Self::PREFIX, ulid) {
            Ok(s) => Ok(FileVersionId(s)),
            Err(m) => Err(m),
        }
    }

    /// The full id text.
    pub fn as_str(&self) -> (s: &str)
        ensures
            s@ == self@,
            is_id_of("ver"@, self@),
    {
        proof {
            use_type_invariant(self);
        }
        self.0.as_str()
    }

    /// A copy of the id.
    pub fn duplicate(&self) -> (r: Self)
        ensures
            r@ == self@,
    {
        proof {
            use_type_invariant(self);
        }
        Self(self.0.clone())
    }
}

impl std::str::FromStr for FileVersionId {
    type Err = String;

    fn from_str(s: &str) -> (r: Result<Self, String>)
        ensures
            r is Ok <==> is_id_of("ver"@, s@),
            r matches Ok(id) ==> id@ == s@,
            r matches Err(m) ==> m@ == id_parse_error_text("FileVersionId"@, "ver"@, s@),
    {
        Self::parse(s)
    }
}

/// Id of a timeline event: `evt_<ULID>`.
#[derive(Debug, PartialEq, Eq, Hash, Ord, PartialOrd)]
pub struct EventId(String);

impl Clone for EventId {
    fn clone(&self) -> (r: Self)
        ensures
            r@ == self@,
    {
        proof {
            use_type_invariant(self);
        }
        Self(self.0.clone())
    }
}

impl View for EventId {
    type V = Seq<char>;

    closed spec fn view(&self) -> Seq<char> {
        self.0@
    }
}

impl EventId {
    /// The registered prefix.
    pub const PREFIX: &'static str = "evt";

    /// Every id has the registered prefix and a ULID body.
    #[verifier::type_invariant]
    spec fn well_formed(self) -> bool {
        is_id_of("evt"@, self.0@)
    }

    /// Parses a full id, checking the prefix and the ULID body.
    pub fn parse(raw: &str) -> (r: Result<Self, String>)
        ensures
            r is Ok <==> is_id_of("evt"@, raw@),
            r matches Ok(id) ==> id@ == raw@,
            r matches Err(m) ==> m@ == id_parse_error_text("EventId"@, "evt"@, raw@),
    {
        match parse_prefixed(Self::PREFIX, "EventId", raw) {
            Ok(s) => Ok(EventId(s)),
            Err(m) => Err(m),
        }
    }

    /// Builds the id from a bare ULID body by adding the prefix.
    pub fn from_ulid(ulid: &str) -> (r: Result<Self, String>)
        ensures
            r is Ok <==> ulid_body(ulid@),
            r matches Ok(id) ==> id@ == "evt"@ + "_"@ + ulid@ && is_id_of("evt"@, id@),
            r matches Err(m) ==> m@ == ulid_error_text(ulid@),
    {
        proof {
            reveal_strlit("evt");
        }
        match join_prefixed(Self::PREFIX, ulid) {
            Ok(s) => Ok(EventId(s)),
            Err(m) => Err(m),
        }
    }

    /// The full id text.
    pub fn as_str(&self) -> (s: &str)
        ensures
            s@ == self@,
            is_id_of("evt"@, self@),
    {
        proof {
            use_type_invariant(self);
        }
        self.0.as_str()
    }

    /// A copy of the id.
    pub fn duplicate(&self) -> (r: Self)
        ensures
            r@ == self@,
    {
        proof {
            use_type_invariant(self);
        }
        Self(self.0.clone())
    }
}

impl std::str::FromStr for EventId {
    type Err = String;

    fn from_str(s: &str) -> (r: Result<Self, String>)
        ensures
            r is Ok <==> is_id_of("evt"@, s@),
            r matches Ok(id) ==> id@ == s@,
            r matches Err(m) ==> m@ == id_parse_error_text("EventId"@, "evt"@, s@),
    {
        Self::parse(s)
    }
}

/// Id of a stored credential: `cred_<ULID>`.
#[derive(Debug, PartialEq, Eq, Hash, Ord, PartialOrd)]
pub struct CredentialId(String);

impl Clone for CredentialId {
    fn clone(&self) -> (r: Self)
        ensures
            r@ == self@,
    {
        proof {
            use_type_invariant(self);
        }
        Self(self.0.clone())
    }
}

impl View for CredentialId {
    type V = Seq<char>;

    closed spec fn view(&self) -> Seq<char> {
        self.0@
    }
}

impl CredentialId {
    /// The registered prefix.
    pub const PREFIX: &'static str = "cred";

    /// Every id has the registered prefix and a ULID body.
    #[verifier::type_invariant]
    spec fn well_formed(self) -> bool {
        is_id_of("cred"@, self.0@)
    }

    /// Parses a full id, checking the prefix and the ULID body.
    pub fn parse(raw: &str) -> (r: Result<Self, String>)
        ensures
            r is Ok <==> is_id_of("cred"@, raw@),
            r matches Ok(id) ==> id@ == raw@,
            r matches Err(m) ==> m@ == id_parse_error_text("CredentialId"@, "cred"@, raw@),
    {
        match parse_prefixed(Self::PREFIX, "CredentialId", raw) {
            Ok(s) => Ok(CredentialId(s)),
            Err(m) => Err(m),
        }
    }

    /// Builds the id from a bare ULID body by adding the prefix.
    pub fn from_ulid(ulid: &str) -> (r: Result<Self, String>)
        ensures
            r is Ok <==> ulid_body(ulid@),
            r matches Ok(id) ==> id@ == "cred"@ + "_"@ + ulid@ && is_id_of("cred"@, id@),
            r matches Err(m) ==> m@ == ulid_error_text(ulid@),
    {
        proof {
            reveal_strlit("cred");
        }
        match join_prefixed(Self::PREFIX, ulid) {
            Ok(s) => Ok(CredentialId(s)),
            Err(m) => Err(m),
        }
    }

    /// The full id text.
    pub fn as_str(&self) -> (s: &str)
        ensures
            s@ == self@,
            is_id_of("cred"@, self@),
    {
        proof {
            use_type_invariant(self);
        }
        self.0.as_str()
    }

    /// A copy of the id.
    pub fn duplicate(&self) -> (r: Self)
        ensures
            r@ == self@,
    {
        proof {
            use_type_invariant(self);
        }
        Self(self.0.clone())
    }
}

impl std::str::FromStr for CredentialId {
    type Err = String;

    fn from_str(s: &str) -> (r: Result<Self, String>)
        ensures
            r is Ok <==> is_id_of("cred"@, s@),
            r matches Ok(id) ==> id@ == s@,
            r matches Err(m) ==> m@ == id_parse_error_text("CredentialId"@, "cred"@, s@),
    {
        Self::parse(s)
    }
}

/// Id of a todo: `tdo_<ULID>`.
#[derive(Debug, PartialEq, Eq, Hash, Ord, PartialOrd)]
pub struct TodoId(String);

impl Clone for TodoId {
    fn clone(&self) -> (r: Self)
        ensures
            r@ == self@,
    {
        proof {
            use_type_invariant(self);
        }
        Self(self.0.clone())
    }
}

impl View for TodoId {
    type V = Seq<char>;

    closed spec fn view(&self) -> Seq<char> {
        self.0@
    }
}

impl TodoId {
    /// The registered prefix.
    pub const PREFIX: &'static str = "tdo";

    /// Every id has the registered prefix and a ULID body.
    #[verifier::type_invariant]
    spec fn well_formed(self) -> bool {
        is_id_of("tdo"@, self.0@)
    }

    /// Parses a full id, checking the prefix and the ULID body.
    pub fn parse(raw: &str) -> (r: Result<Self, String>)
        ensures
            r is Ok <==> is_id_of("tdo"@, raw@),
            r matches Ok(id) ==> id@ == raw@,
            r matches Err(m) ==> m@ == id_parse_error_text("TodoId"@, "tdo"@, raw@),
    {
        match parse_prefixed(Self::PREFIX, "TodoId", raw) {
            Ok(s) => Ok(TodoId(s)),
            Err(m) => Err(m),
        }
    }

    /// Builds the id from a bare ULID body by adding the prefix.
    pub fn from_ulid(ulid: &str) -> (r: Result<Self, String>)
        ensures
            r is Ok <==> ulid_body(ulid@),
            r matches Ok(id) ==> id@ == "tdo"@ + "_"@ + ulid@ && is_id_of("tdo"@, id@),
            r matches Err(m) ==> m@ == ulid_error_text(ulid@),
    {
        proof {
            reveal_strlit("tdo");
        }
        match join_prefixed(Self::PREFIX, ulid) {
            Ok(s) => Ok(TodoId(s)),
            Err(m) => Err(m),
        }
    }

    /// The full id text.
    pub fn as_str(&self) -> (s: &str)
        ensures
            s@ == self@,
            is_id_of("tdo"@, self@),
    {
        proof {
            use_type_invariant(self);
        }
        self.0.as_str()
    }

    /// A copy of the id.
    pub fn duplicate(&self) -> (r: Self)
        ensures
            r@ == self@,
    {
        proof {
            use_type_invariant(self);
        }
        Self(self.0.clone())
    }
}

impl std::str::FromStr for TodoId {
    type Err = String;

    fn from_str(s: &str) -> (r: Result<Self, String>)
        ensures
            r is Ok <==> is_id_of("tdo"@, s@),
            r matches Ok(id) ==> id@ == s@,
            r matches Err(m) ==> m@ == id_parse_error_text("TodoId"@, "tdo"@, s@),
    {
        Self::parse(s)
    }
}

/// Id of a timeline group: `tlg_<ULID>`.
#[derive(Debug, PartialEq, Eq, Hash, Ord, PartialOrd)]
pub struct TimelineGroupId(String);

impl Clone for TimelineGroupId {
    fn clone(&self) -> (r: Self)
        ensures
            r@ == self@,
    {
        proof {
            use_type_invariant(self);
        }
        Self(self.0.clone())
    }
}

impl View for TimelineGroupId {
    type V = Seq<char>;

    closed spec fn view(&self) -> Seq<char> {
        self.0@
    }
}

impl TimelineGroupId {
    /// The registered prefix.
    pub const PREFIX: &'static str = "tlg";

    /// Every id has the registered prefix and a ULID body.
    #[verifier::type_invariant]
    spec fn well_formed(self) -> bool {
        is_id_of("tlg"@, self.0@)
    }

    /// Parses a full id, checking the prefix and the ULID body.
    pub fn parse(raw: &str) -> (r: Result<Self, String>)
        ensures
            r is Ok <==> is_id_of("tlg"@, raw@),
            r matches Ok(id) ==> id@ == raw@,
            r matches Err(m) ==> m@ == id_parse_error_text("TimelineGroupId"@, "tlg"@, raw@),
    {
        match parse_prefixed(Self::PREFIX, "TimelineGroupId", raw) {
            Ok(s) => Ok(TimelineGroupId(s)),
            Err(m) => Err(m),
        }
    }

    /// Builds the id from a bare ULID body by adding the prefix.
    pub fn from_ulid(ulid: &str) -> (r: Result<Self, String>)
        ensures
            r is Ok <==> ulid_body(ulid@),
            r matches Ok(id) ==> id@ == "tlg"@ + "_"@ + ulid@ && is_id_of("tlg"@, id@),
            r matches Err(m) ==> m@ == ulid_error_text(ulid@),
    {
        proof {
            reveal_strlit("tlg");
        }
        match join_prefixed(Self::PREFIX, ulid) {
            Ok(s) => Ok(TimelineGroupId(s)),
            Err(m) => Err(m),
        }
    }

    /// The full id text.
    pub fn as_str(&self) -> (s: &str)
        ensures
            s@ == self@,
            is_id_of("tlg"@, self@),
    {
        proof {
            use_type_invariant(self);
        }
        self.0.as_str()
    }

    /// A copy of the id.
    pub fn duplicate(&self) -> (r: Self)
        ensures
            r@ == self@,
    {
        proof {
            use_type_invariant(self);
        }
        Self(self.0.clone())
    }
}

impl std::str::FromStr for TimelineGroupId {
    type Err = String;

    fn from_str(s: &str) -> (r: Result<Self, String>)
        ensures
            r is Ok <==> is_id_of("tlg"@, s@),
            r matches Ok(id) ==> id@ == s@,
            r matches Err(m) ==> m@ == id_parse_error_text("TimelineGroupId"@, "tlg"@, s@),
    {
        Self::parse(s)
    }
}

/// Id of a project template: `tpl_<ULID>`.
#[derive(Debug, PartialEq, Eq, Hash, Ord, PartialOrd)]
pub struct TemplateId(String);

impl Clone for TemplateId {
    fn clone(&self) -> (r: Self)
        ensures
            r@ == self@,
    {
        proof {
            use_type_invariant(self);
        }
        Self(self.0.clone())
    }
}

impl View for TemplateId {
    type V = Seq<char>;

    closed spec fn view(&self) -> Seq<char> {
        self.0@
    }
}

impl TemplateId {
    /// The registered prefix.
    pub const PREFIX: &'static str = "tpl";

    /// Every id has the registered prefix and a ULID body.
    #[verifier::type_invariant]
    spec fn well_formed(self) -> bool {
        is_id_of("tpl"@, self.0@)
    }

    /// Parses a full id, checking the prefix and the ULID body.
    pub fn parse(raw: &str) -> (r: Result<Self, String>)
        ensures
            r is Ok <==> is_id_of("tpl"@, raw@),
            r matches Ok(id) ==> id@ == raw@,
            r matches Err(m) ==> m@ == id_parse_error_text("TemplateId"@, "tpl"@, raw@),
    {
        match parse_prefixed(Self::PREFIX, "TemplateId", raw) {
            Ok(s) => Ok(TemplateId(s)),
            Err(m) => Err(m),
        }
    }

    /// Builds the id from a bare ULID body by adding the prefix.
    pub fn from_ulid(ulid: &str) -> (r: Result<Self, String>)
        ensures
            r is Ok <==> ulid_body(ulid@),
            r matches Ok(id) ==> id@ == "tpl"@ + "_"@ + ulid@ && is_id_of("tpl"@, id@),
            r matches Err(m) ==> m@ == ulid_error_text(ulid@),
    {
        proof {
            reveal_strlit("tpl");
        }
        match join_prefixed(Self::PREFIX, ulid) {
            Ok(s) => Ok(TemplateId(s)),
            Err(m) => Err(m),
        }
    }

    /// The full id text.
    pub fn as_str(&self) -> (s: &str)
        ensures
            s@ == self@,
            is_id_of("tpl"@, self@),
    {
        proof {
            use_type_invariant(self);
        }
        self.0.as_str()
    }

    /// A copy of the id.
    pub fn duplicate(&self) -> (r: Self)
        ensures
            r@ == self@,
    {
        proof {
            use_type_invariant(self);
        }
        Self(self.0.clone())
    }
}

impl std::str::FromStr for TemplateId {
    type Err = String;

    fn from_str(s: &str) -> (r: Result<Self, String>)
        ensures
            r is Ok <==> is_id_of("tpl"@, s@),
            r matches Ok(id) ==> id@ == s@,
            r matches Err(m) ==> m@ == id_parse_error_text("TemplateId"@, "tpl"@, s@),
    {
        Self::parse(s)
    }
}

/// Id of a distilled experience: `exp_<ULID>`.
#[derive(Debug, PartialEq, Eq, Hash, Ord, PartialOrd)]
pub struct ExperienceId(String);

impl Clone for ExperienceId {
    fn clone(&self) -> (r: Self)
        ensures
            r@ == self@,
    {
        proof {
            use_type_invariant(self);
        }
        Self(self.0.clone())
    }
}

impl View for ExperienceId {
    type V = Seq<char>;

    closed spec fn view(&self) -> Seq<char> {
        self.0@
    }
}

impl ExperienceId {
    /// The registered prefix.
    pub const PREFIX: &'static str = "exp";

    /// Every id has the registered prefix and a ULID body.
    #[verifier::type_invariant]
    spec fn well_formed(self) -> bool {
        is_id_of("exp"@, self.0@)
    }

    /// Parses a full id, checking the prefix and the ULID body.
    pub fn parse(raw: &str) -> (r: Result<Self, String>)
        ensures
            r is Ok <==> is_id_of("exp"@, raw@),
            r matches Ok(id) ==> id@ == raw@,
            r matches Err(m) ==> m@ == id_parse_error_text("ExperienceId"@, "exp"@, raw@),
    {
        match parse_prefixed(Self::PREFIX, "ExperienceId", raw) {
            Ok(s) => Ok(ExperienceId(s)),
            Err(m) => Err(m),
        }
    }

    /// Builds the id from a bare ULID body by adding the prefix.
    pub fn from_ulid(ulid: &str) -> (r: Result<Self, String>)
        ensures
            r is Ok <==> ulid_body(ulid@),
            r matches Ok(id) ==> id@ == "exp"@ + "_"@ + ulid@ && is_id_of("exp"@, id@),
            r matches Err(m) ==> m@ == ulid_error_text(ulid@),
    {
        proof {
            reveal_strlit("exp");
        }
        match join_prefixed(Self::PREFIX, ulid) {
            Ok(s) => Ok(ExperienceId(s)),
            Err(m) => Err(m),
        }
    }

    /// The full id text.
    pub fn as_str(&self) -> (s: &str)
        ensures
            s@ == self@,
            is_id_of("exp"@, self@),
    {
        proof {
            use_type_invariant(self);
        }
        self.0.as_str()
    }

    /// A copy of the id.
    pub fn duplicate(&self) -> (r: Self)
        ensures
            r@ == self@,
    {
        proof {
            use_type_invariant(self);
        }
        Self(self.0.clone())
    }
}

impl std::str::FromStr for ExperienceId {
    type Err = String;

    fn from_str(s: &str) -> (r: Result<Self, String>)
        ensures
            r is Ok <==> is_id_of("exp"@, s@),
            r matches Ok(id) ==> id@ == s@,
            r matches Err(m) ==> m@ == id_parse_error_text("ExperienceId"@, "exp"@, s@),
    {
        Self::parse(s)
    }
}

/// Id of an operation card: `crd_<ULID>`.
#[derive(Debug, PartialEq, Eq, Hash, Ord, PartialOrd)]
pub struct CardId(String);

impl Clone for CardId {
    fn clone(&self) -> (r: Self)
        ensures
            r@ == self@,
    {
        proof {
            use_type_invariant(self);
        }
        Self(self.0.clone())
    }
}

impl View for CardId {
    type V = Seq<char>;

    closed spec fn view(&self) -> Seq<char> {
        self.0@
    }
}

impl CardId {
    /// The registered prefix.
    pub const PREFIX: &'static str = "crd";

    /// Every id has the registered prefix and a ULID body.
    #[verifier::type_invariant]
    spec fn well_formed(self) -> bool {
        is_id_of("crd"@, self.0@)
    }

    /// Parses a full id, checking the prefix and the ULID body.
    pub fn parse(raw: &str) -> (r: Result<Self, String>)
        ensures
            r is Ok <==> is_id_of("crd"@, raw@),
            r matches Ok(id) ==> id@ == raw@,
            r matches Err(m) ==> m@ == id_parse_error_text("CardId"@, "crd"@, raw@),
    {
        match parse_prefixed(Self::PREFIX, "CardId", raw) {
            Ok(s) => Ok(CardId(s)),
            Err(m) => Err(m),
        }
    }

    /// Builds the id from a bare ULID body by adding the prefix.
    pub fn from_ulid(ulid: &str) -> (r: Result<Self, String>)
        ensures
            r is Ok <==> ulid_body(ulid@),
            r matches Ok(id) ==> id@ == "crd"@ + "_"@ + ulid@ && is_id_of("crd"@, id@),
            r matches Err(m) ==> m@ == ulid_error_text(ulid@),
    {
        proof {
            reveal_strlit("crd");
        }
        match join_prefixed(Self::PREFIX, ulid) {
            Ok(s) => Ok(CardId(s)),
            Err(m) => Err(m),
        }
    }

    /// The full id text.
    pub fn as_str(&self) -> (s: &str)
        ensures
            s@ == self@,
            is_id_of("crd"@, self@),
    {
        proof {
            use_type_invariant(self);
        }
        self.0.as_str()
    }

    /// A copy of the id.
    pub fn duplicate(&self) -> (r: Self)
        ensures
            r@ == self@,
    {
        proof {
            use_type_invariant(self);
        }
        Self(self.0.clone())
    }
}

impl std::str::FromStr for CardId {
    type Err = String;

    fn from_str(s: &str) -> (r: Result<Self, String>)
        ensures
            r is Ok <==> is_id_of("crd"@, s@),
            r matches Ok(id) ==> id@ == s@,
            r matches Err(m) ==> m@ == id_parse_error_text("CardId"@, "crd"@, s@),
    {
        Self::parse(s)
    }
}

/// Id of a capture: `cap_<ULID>`.
#[derive(Debug, PartialEq, Eq, Hash, Ord, PartialOrd)]
pub struct CaptureId(String);

impl Clone for CaptureId {
    fn clone(&self) -> (r: Self)
        ensures
            r@ == self@,
    {
        proof {
            use_type_invariant(self);
        }
        Self(self.0.clone())
    }
}

impl View for CaptureId {
    type V = Seq<char>;

    closed spec fn view(&self) -> Seq<char> {
        self.0@
    }
}

impl CaptureId {
    /// The registered prefix.
    pub const PREFIX: &'static str = "cap";

    /// Every id has the registered prefix and a ULID body.
    #[verifier::type_invariant]
    spec fn well_formed(self) -> bool {
        is_id_of("cap"@, self.0@)
    }

    /// Parses a full id, checking the prefix and the ULID body.
    pub fn parse(raw: &str) -> (r: Result<Self, String>)
        ensures
            r is Ok <==> is_id_of("cap"@, raw@),
            r matches Ok(id) ==> id@ == raw@,
            r matches Err(m) ==> m@ == id_parse_error_text("CaptureId"@, "cap"@, raw@),
    {
        match parse_prefixed(Self::PREFIX, "CaptureId", raw) {
            Ok(s) => Ok(CaptureId(s)),
            Err(m) => Err(m),
        }
    }

    /// Builds the id from a bare ULID body by adding the prefix.
    pub fn from_ulid(ulid: &str) -> (r: Result<Self, String>)
        ensures
            r is Ok <==> ulid_body(ulid@),
            r matches Ok(id) ==> id@ == "cap"@ + "_"@ + ulid@ && is_id_of("cap"@, id@),
            r matches Err(m) ==> m@ == ulid_error_text(ulid@),
    {
        proof {
            reveal_strlit("cap");
        }
        match join_prefixed(Self::PREFIX, ulid) {
            Ok(s) => Ok(CaptureId(s)),
            Err(m) => Err(m),
        }
    }

    /// The full id text.
    pub fn as_str(&self) -> (s: &str)
        ensures
            s@ == self@,
            is_id_of("cap"@, self@),
    {
        proof {
            use_type_invariant(self);
        }
        self.0.as_str()
    }

    /// A copy of the id.
    pub fn duplicate(&self) -> (r: Self)
        ensures
            r@ == self@,
    {
        proof {
            use_type_invariant(self);
        }
        Self(self.0.clone())
    }
}

impl std::str::FromStr for CaptureId {
    type Err = String;

    fn from_str(s: &str) -> (r: Result<Self, String>)
        ensures
            r is Ok <==> is_id_of("cap"@, s@),
            r matches Ok(id) ==> id@ == s@,
            r matches Err(m) ==> m@ == id_parse_error_text("CaptureId"@, "cap"@, s@),
    {
        Self::parse(s)
    }
}

/// Id of a memory entry: `mem_<ULID>`.
#[derive(Debug, PartialEq, Eq, Hash, Ord, PartialOrd)]
pub struct MemoryId(String);

impl Clone for MemoryId {
    fn clone(&self) -> (r: Self)
        ensures
            r@ == self@,
    {
        proof {
            use_type_invariant(self);
        }
        Self(self.0.clone())
    }
}

impl View for MemoryId {
    type V = Seq<char>;

    closed spec fn view(&self) -> Seq<char> {
        self.0@
    }
}

impl MemoryId {
    /// The registered prefix.
    pub const PREFIX: &'static str = "mem";

    /// Every id has the registered prefix and a ULID body.
    #[verifier::type_invariant]
    spec fn well_formed(self) -> bool {
        is_id_of("mem"@, self.0@)
    }

    /// Parses a full id, checking the prefix and the ULID body.
    pub fn parse(raw: &str) -> (r: Result<Self, String>)
        ensures
            r is Ok <==> is_id_of("mem"@, raw@),
            r matches Ok(id) ==> id@ == raw@,
            r matches Err(m) ==> m@ == id_parse_error_text("MemoryId"@, "mem"@, raw@),
    {
        match parse_prefixed(Self::PREFIX, "MemoryId", raw) {
            Ok(s) => Ok(MemoryId(s)),
            Err(m) => Err(m),
        }
    }

    /// Builds the id from a bare ULID body by adding the prefix.
    pub fn from_ulid(ulid: &str) -> (r: Result<Self, String>)
        ensures
            r is Ok <==> ulid_body(ulid@),
            r matches Ok(id) ==> id@ == "mem"@ + "_"@ + ulid@ && is_id_of("mem"@, id@),
            r matches Err(m) ==> m@ == ulid_error_text(ulid@),
    {
        proof {
            reveal_strlit("mem");
        }
        match join_prefixed(Self::PREFIX, ulid) {
            Ok(s) => Ok(MemoryId(s)),
            Err(m) => Err(m),
        }
    }

    /// The full id text.
    pub fn as_str(&self) -> (s: &str)
        ensures
            s@ == self@,
            is_id_of("mem"@, self@),
    {
        proof {
            use_type_invariant(self);
        }
        self.0.as_str()
    }

    /// A copy of the id.
    pub fn duplicate(&self) -> (r: Self)
        ensures
            r@ == self@,
    {
        proof {
            use_type_invariant(self);
        }
        Self(self.0.clone())
    }
}

impl std::str::FromStr for MemoryId {
    type Err = String;

    fn from_str(s: &str) -> (r: Result<Self, String>)
        ensures
            r is Ok <==> is_id_of("mem"@, s@),
            r matches Ok(id) ==> id@ == s@,
            r matches Err(m) ==> m@ == id_parse_error_text("MemoryId"@, "mem"@, s@),
    {
        Self::parse(s)
    }
}

/// Id of an audit record: `aud_<ULID>`.
#[derive(Debug, PartialEq, Eq, Hash, Ord, PartialOrd)]
pub struct AuditId(String);

impl Clone for AuditId {
    fn clone(&self) -> (r: Self)
        ensures
            r@ == self@,
    {
        proof {
            use_type_invariant(self);
        }
        Self(self.0.clone())
    }
}

impl View for AuditId {
    type V = Seq<char>;

    closed spec fn view(&self) -> Seq<char> {
        self.0@
    }
}

impl AuditId {
    /// The registered prefix.
    pub const PREFIX: &'static str = "aud";

    /// Every id has the registered prefix and a ULID body.
    #[verifier::type_invariant]
    spec fn well_formed(self) -> bool {
        is_id_of("aud"@, self.0@)
    }

    /// Parses a full id, checking the prefix and the ULID body.
    pub fn parse(raw: &str) -> (r: Result<Self, String>)
        ensures
            r is Ok <==> is_id_of("aud"@, raw@),
            r matches Ok(id) ==> id@ == raw@,
            r matches Err(m) ==> m@ == id_parse_error_text("AuditId"@, "aud"@, raw@),
    {
        match parse_prefixed(Self::PREFIX, "AuditId", raw) {
            Ok(s) => Ok(AuditId(s)),
            Err(m) => Err(m),
        }
    }

    /// Builds the id from a bare ULID body by adding the prefix.
    pub fn from_ulid(ulid: &str) -> (r: Result<Self, String>)
        ensures
            r is Ok <==> ulid_body(ulid@),
            r matches Ok(id) ==> id@ == "aud"@ + "_"@ + ulid@ && is_id_of("aud"@, id@),
            r matches Err(m) ==> m@ == ulid_error_text(ulid@),
    {
        proof {
            reveal_strlit("aud");
        }
        match join_prefixed(Self::PREFIX, ulid) {
            Ok(s) => Ok(AuditId(s)),
            Err(m) => Err(m),
        }
    }

    /// The full id text.
    pub fn as_str(&self) -> (s: &str)
        ensures
            s@ == self@,
            is_id_of("aud"@, self@),
    {
        proof {
            use_type_invariant(self);
        }
        self.0.as_str()
    }

    /// A copy of the id.
    pub fn duplicate(&self) -> (r: Self)
        ensures
            r@ == self@,
    {
        proof {
            use_type_invariant(self);
        }
        Self(self.0.clone())
    }
}

impl std::str::FromStr for AuditId {
    type Err = String;

    fn from_str(s: &str) -> (r: Result<Self, String>)
        ensures
            r is Ok <==> is_id_of("aud"@, s@),
            r matches Ok(id) ==> id@ == s@,
            r matches Err(m) ==> m@ == id_parse_error_text("AuditId"@, "aud"@, s@),
    {
        Self::parse(s)
    }
}

} // verus!
