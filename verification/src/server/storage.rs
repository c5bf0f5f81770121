//! The vault's storage plans: the data directory layout, when the index is migrated and
//! seeded, the search statement, the note a create request makes, the steps of creating a
//! note (file first, index second, no orphan left), and how index rows become values.
//!
//! The files are the truth; the SQLite index can be deleted and rebuilt.

use vstd::prelude::*;
use vstd::string::*;
use crate::common::{chrono_rfc3339_nanos, timestamp_error_text, Provenance, ProvenanceSource, Timestamp};
use crate::entities::Project;
use crate::ids::{
    id_parse_error_text, is_id_of, ulid_body, NoteId, ProjectId, TemplateId,
};
use crate::notes::{CreateNoteRequest, NoteFormat, NoteResponse, SearchQuery, DEFAULT_TOP_K};
use crate::text::{chars_of, decimal, decimal_text, digit_char, push_char, str_eq};

verus! {

broadcast use vstd::string::group_string_axioms;

/// The project seeded into an empty index (a fixed id, so that checks can name it).
pub const SEED_PROJECT_ID: &'static str = "prj_01J8Z3A7B4C5D6E7F8G9H0JKMN";

/// The name of the seeded project.
pub const SEED_PROJECT_NAME: &'static str = "切片示例";

/// The schema version of the index.
pub const INDEX_VERSION: i64 = 1;

/// The subdirectories of the data directory, all created at start.
pub fn vault_subdirs() -> (r: Vec<&'static str>)
    ensures
        r.len() == 6,
        r[0]@ == "notes"@,
        r[1]@ == "attachments"@,
        r[2]@ == "inbox"@,
        r[3]@ == "projects"@,
        r[4]@ == "memory"@,
        r[5]@ == "templates"@,
{
    let mut r: Vec<&'static str> = Vec::new();
    r.push("notes");
    r.push("attachments");
    r.push("inbox");
    r.push("projects");
    r.push("memory");
    r.push("templates");
    r
}

/// Whether the index schema must be created (its version is below the current one).
pub fn needs_migration(version: i64) -> (r: bool)
    ensures
        r == (version < INDEX_VERSION),
{
    version < INDEX_VERSION
}

/// Whether the seed project is inserted: only into an index without projects.
pub fn needs_seed(project_count: i64) -> (r: bool)
    ensures
        r == (project_count <= 0),
{
    !(project_count > 0)
}

// ---------------------------------------------------------------------------
// Search.
// ---------------------------------------------------------------------------

/// The text with every `"` doubled.
pub open spec fn double_quotes(s: Seq<char>) -> Seq<char>
    decreases s.len(),
{
    if s.len() == 0 {
        s
    } else if s.last() == '"' {
        double_quotes(s.drop_last()) + "\"\""@
    } else {
        double_quotes(s.drop_last()).push(s.last())
    }
}

/// The search text as one literal FTS5 phrase: quoted, with inner quotes doubled, so that
/// operators and quotes in it never act as query syntax.
pub open spec fn fts_phrase_of(q: Seq<char>) -> Seq<char> {
    "\""@ + double_quotes(q) + "\""@
}

/// How FTS5 reads the inside of a string: a doubled `"` stands for one `"`, and a lone `"`
/// would end the string early (no reading).
pub open spec fn fts_unquote(s: Seq<char>) -> Option<Seq<char>>
    decreases s.len(),
{
    if s.len() == 0 {
        Some(s)
    } else if s[0] == '"' {
        if s.len() >= 2 && s[1] == '"' {
            match fts_unquote(s.subrange(2, s.len() as int)) {
                Some(r) => Some(seq!['"'] + r),
                None => None,
            }
        } else {
            None
        }
    } else {
        match fts_unquote(s.drop_first()) {
            Some(r) => Some(seq![s[0]] + r),
            None => None,
        }
    }
}

proof fn lemma_double_quotes_concat(a: Seq<char>, b: Seq<char>)
    ensures
        double_quotes(a + b) == double_quotes(a) + double_quotes(b),
    decreases b.len(),
{
    if b.len() == 0 {
        assert(a + b =~= a);
        assert(double_quotes(a) + double_quotes(b) =~= double_quotes(a));
    } else {
        let d = b.drop_last();
        lemma_double_quotes_concat(a, d);
        assert((a + b).drop_last() =~= a + d);
        assert((a + b).last() == b.last());
        if b.last() == '"' {
            assert(double_quotes(a + b) =~= double_quotes(a) + double_quotes(b));
        } else {
            assert(double_quotes(a + b) =~= double_quotes(a) + double_quotes(b));
        }
    }
}

/// The phrase of a search text is one FTS5 string that reads back as exactly that text:
/// quotes and operators in it stay literal.
pub proof fn law_fts_phrase_is_literal(q: Seq<char>)
    ensures
        fts_phrase_of(q) == seq!['"'] + double_quotes(q) + seq!['"'],
        fts_unquote(double_quotes(q)) == Some(q),
    decreases q.len(),
{
    reveal_strlit("\"");
    reveal_strlit("\"\"");
    assert("\""@ =~= seq!['"']);
    if q.len() == 0 {
        assert(double_quotes(q) == q);
        assert(fts_unquote(double_quotes(q)) == Some(q));
    } else {
        let c = q[0];
        let r = q.drop_first();
        assert(q =~= seq![c] + r);
        lemma_double_quotes_concat(seq![c], r);
        law_fts_phrase_is_literal(r);
        assert(seq![c].drop_last() =~= Seq::<char>::empty());
        assert(double_quotes(seq![c].drop_last()) =~= Seq::<char>::empty());
        assert(seq![c].last() == c);
        assert("\"\""@ =~= seq!['"', '"']);
        let s = double_quotes(q);
        if c == '"' {
            assert(double_quotes(seq![c]) =~= seq!['"', '"']);
            assert(s =~= seq!['"', '"'] + double_quotes(r));
            assert(s.subrange(2, s.len() as int) =~= double_quotes(r));
            assert(seq!['"'] + r =~= q);
        } else {
            assert(double_quotes(seq![c]) =~= seq![c]);
            assert(s =~= seq![c] + double_quotes(r));
            assert(s.drop_first() =~= double_quotes(r));
        }
    }
}

/// The FTS5 phrase of a search text.
pub fn fts_phrase(q: &str) -> (r: String)
    ensures
        r@ == fts_phrase_of(q@),
{
    let v = chars_of(q);
    let mut body = String::new();
    let mut i: usize = 0;
    while i < v.len()
        invariant
            i <= v.len(),
            v@ == q@,
            body@ == double_quotes(v@.take(i as int)),
        decreases v.len() - i,
    {
        proof {
            assert(v@.take(i + 1).drop_last() =~= v@.take(i as int));
            assert(v@.take(i + 1).last() == v@[i as int]);
        }
        if v[i] == '"' {
            body.append("\"\"");
        } else {
            push_char(&mut body, v[i]);
        }
        i = i + 1;
    }
    assert(v@.take(i as int) =~= v@);
    let mut r = "\"".to_owned();
    r.append(body.as_str());
    r.append("\"");
    r
}

/// A statement parameter.
#[derive(Debug, Clone, PartialEq)]
pub enum SqlValue {
    Text(String),
    Integer(i64),
}

/// The model of a statement parameter.
pub enum SqlParam {
    Text(Seq<char>),
    Integer(i64),
}

/// The model of a parameter.
pub open spec fn param_model(v: SqlValue) -> SqlParam {
    match v {
        SqlValue::Text(s) => SqlParam::Text(s@),
        SqlValue::Integer(n) => SqlParam::Integer(n),
    }
}

/// The model of a parameter list.
pub open spec fn params_model(vs: Seq<SqlValue>) -> Seq<SqlParam> {
    vs.map_values(|v: SqlValue| param_model(v))
}

/// A statement and its parameters, in order.
#[derive(Debug, Clone, PartialEq)]
pub struct SqlStatement {
    pub sql: String,
    pub params: Vec<SqlValue>,
}

/// The head of the search statement: FTS5 match, snippet of the body and bm25 score.
pub open spec fn search_head() -> Seq<char> {
    "SELECT i.id, i.title, i.provenance,\n                    "@
        + "snippet(items_fts, 1, '', '', '…', 16) AS snippet,\n                    "@
        + "-bm25(items_fts) AS score\n             "@
        + "FROM items_fts JOIN items i ON i.rowid = items_fts.rowid\n             "@
        + "WHERE items_fts MATCH ?"@
}

/// `n` placeholders joined by `, `.
pub open spec fn placeholders(n: nat) -> Seq<char>
    decreases n,
{
    if n == 0 {
        Seq::empty()
    } else if n == 1 {
        "?"@
    } else {
        placeholders((n - 1) as nat) + ", ?"@
    }
}

/// The tags of a query, as texts.
pub open spec fn tag_texts(tags: Option<Vec<String>>) -> Seq<Seq<char>> {
    match tags {
        Some(t) => t@.map_values(|s: String| s@),
        None => Seq::empty(),
    }
}

/// The texts without repeats, each kept at its first place.
pub open spec fn distinct_texts(s: Seq<Seq<char>>) -> Seq<Seq<char>>
    decreases s.len(),
{
    if s.len() == 0 {
        s
    } else if distinct_texts(s.drop_last()).contains(s.last()) {
        distinct_texts(s.drop_last())
    } else {
        distinct_texts(s.drop_last()).push(s.last())
    }
}

/// The tags a query filters by: its tags, each once.
pub open spec fn query_tags(tags: Option<Vec<String>>) -> Seq<Seq<char>> {
    distinct_texts(tag_texts(tags))
}

/// The clause of a filter that applies.
pub open spec fn when(present: bool, clause: Seq<char>) -> Seq<char> {
    if present {
        clause
    } else {
        Seq::empty()
    }
}

/// The search statement of a query: phrase match, then the filters that are present
/// (project, directory, created at or after, created at or before, every distinct tag: a
/// note carries each of them, however often either side repeats one), ordered by
/// score (best first) then id, at most `top_k` rows.
pub open spec fn search_sql_text(q: SearchQuery) -> Seq<char> {
    let n = query_tags(q.tags).len();
    search_head()
        + when(q.project_id is Some, " AND i.project_id = ?"@)
        + when(q.target_dir is Some, " AND i.target_dir = ?"@)
        + when(q.after is Some, " AND i.created_at >= ?"@)
        + when(q.before is Some, " AND i.created_at <= ?"@)
        + when(n > 0, " AND (SELECT COUNT(DISTINCT value) FROM json_each(i.tags) WHERE value IN ("@ + placeholders(n)
            + ")) = "@ + decimal(n))
        + " ORDER BY score DESC, i.id LIMIT ?"@
}

/// The parameter of a present text filter.
pub open spec fn text_param(present: bool, text: Seq<char>) -> Seq<SqlParam> {
    if present {
        seq![SqlParam::Text(text)]
    } else {
        Seq::empty()
    }
}

/// The parameters of the search statement, in the order of its placeholders; times are
/// compared by their storage keys.
pub open spec fn search_params(q: SearchQuery) -> Seq<SqlParam> {
    seq![SqlParam::Text(fts_phrase_of(q.q@))]
        + text_param(q.project_id is Some, q.project_id->0@)
        + text_param(q.target_dir is Some, q.target_dir->0@)
        + text_param(q.after is Some, chrono_rfc3339_nanos(q.after->0.seconds(), q.after->0.nanoseconds()))
        + text_param(q.before is Some, chrono_rfc3339_nanos(q.before->0.seconds(), q.before->0.nanoseconds()))
        + query_tags(q.tags).map_values(|t: Seq<char>| SqlParam::Text(t))
        + seq![SqlParam::Integer(
            match q.top_k {
                Some(k) => k as i64,
                None => DEFAULT_TOP_K as i64,
            },
        )]
}

fn push_text(params: &mut Vec<SqlValue>, text: String)
    ensures
        params_model(final(params)@) == params_model(old(params)@) + seq![SqlParam::Text(text@)],
{
    params.push(SqlValue::Text(text));
    assert(params_model(params@) =~= params_model(old(params)@) + seq![SqlParam::Text(text@)]);
}

/// Appends a filter clause and its text parameter when the value is present.
fn add_text_filter(sql: &mut String, params: &mut Vec<SqlValue>, clause: &str, value: Option<String>)
    ensures
        final(sql)@ == old(sql)@ + when(value is Some, clause@),
        params_model(final(params)@) == params_model(old(params)@) + text_param(
            value is Some,
            value->0@,
        ),
{
    match value {
        Some(v) => {
            sql.append(clause);
            push_text(params, v);
        },
        None => {
            assert(old(sql)@ + when(false, clause@) =~= old(sql)@);
            assert(params_model(old(params)@) + text_param(false, Seq::empty()) =~= params_model(old(params)@));
        },
    }
}

/// The strings without repeats, each kept at its first place.
fn distinct_strings(items: &Vec<String>) -> (r: Vec<String>)
    ensures
        texts_of(r@) == distinct_texts(texts_of(items@)),
{
    let ghost all = texts_of(items@);
    let mut out: Vec<String> = Vec::new();
    let mut i: usize = 0;
    assert(all.take(0) =~= Seq::<Seq<char>>::empty());
    assert(texts_of(out@) =~= Seq::<Seq<char>>::empty());
    while i < items.len()
        invariant
            i <= items.len(),
            all == texts_of(items@),
            texts_of(out@) == distinct_texts(all.take(i as int)),
        decreases items.len() - i,
    {
        let mut seen = false;
        let mut j: usize = 0;
        while j < out.len()
            invariant
                j <= out.len(),
                i < items.len(),
                seen <==> exists|k: int| 0 <= k < j && out@[k]@ == items@[i as int]@,
            decreases out.len() - j,
        {
            if str_eq(out[j].as_str(), items[i].as_str()) {
                seen = true;
            }
            j = j + 1;
        }
        proof {
            let t = all.take(i + 1);
            assert(t.drop_last() =~= all.take(i as int));
            assert(t.last() == items@[i as int]@);
            let d = texts_of(out@);
            if seen {
                let k = choose|k: int| 0 <= k < j && out@[k]@ == items@[i as int]@;
                assert(d[k] == items@[i as int]@);
            } else {
                assert forall|k: int| 0 <= k < d.len() implies d[k] != items@[i as int]@ by {
                    assert(d[k] == out@[k]@);
                }
            }
        }
        if !seen {
            let ghost before = out@;
            out.push(items[i].clone());
            proof {
                assert(texts_of(out@) =~= texts_of(before).push(items@[i as int]@));
            }
        }
        i = i + 1;
    }
    assert(all.take(i as int) =~= all);
    out
}

/// Appends the all-tags filter for a list of distinct tags, and its parameters.
fn add_tag_list(sql: &mut String, params: &mut Vec<SqlValue>, tags: &Vec<String>)
    ensures
        final(sql)@ == old(sql)@ + when(
            tags.len() > 0,
            " AND (SELECT COUNT(DISTINCT value) FROM json_each(i.tags) WHERE value IN ("@ + placeholders(tags.len() as nat) + ")) = "@ + decimal(tags.len() as nat),
        ),
        params_model(final(params)@) == params_model(old(params)@) + texts_of(tags@).map_values(
            |t: Seq<char>| SqlParam::Text(t),
        ),
{
    let ghost p4 = params_model(params@);
    let ghost tt = texts_of(tags@);
    if tags.len() > 0 {
        let mut holders = "?".to_owned();
        let mut k: usize = 1;
        while k < tags.len()
            invariant
                1 <= k <= tags.len(),
                holders@ == placeholders(k as nat),
            decreases tags.len() - k,
        {
            holders.append(", ?");
            k = k + 1;
        }
        sql.append(" AND (SELECT COUNT(DISTINCT value) FROM json_each(i.tags) WHERE value IN (");
        sql.append(holders.as_str());
        sql.append(")) = ");
        let count = decimal_text(tags.len() as u64);
        sql.append(count.as_str());
        let mut i: usize = 0;
        assert(p4 + tt.take(0).map_values(|t: Seq<char>| SqlParam::Text(t)) =~= p4);
        while i < tags.len()
            invariant
                i <= tags.len(),
                tt == texts_of(tags@),
                params_model(params@) == p4 + tt.take(i as int).map_values(|t: Seq<char>| SqlParam::Text(t)),
            decreases tags.len() - i,
        {
            proof {
                assert(tt.take(i + 1).map_values(|t: Seq<char>| SqlParam::Text(t))
                    =~= tt.take(i as int).map_values(|t: Seq<char>| SqlParam::Text(t))
                    + seq![SqlParam::Text(tags@[i as int]@)]);
            }
            push_text(params, tags[i].clone());
            i = i + 1;
        }
        assert(tt.take(i as int) =~= tt);
    } else {
        assert(tt.map_values(|t: Seq<char>| SqlParam::Text(t)) =~= Seq::<SqlParam>::empty());
        assert(params_model(params@) + Seq::<SqlParam>::empty() =~= params_model(params@));
        assert(sql@ + Seq::<char>::empty() =~= sql@);
    }
}

/// Appends the all-tags filter and its parameters when tags are given (each tag once).
fn add_tags_filter(sql: &mut String, params: &mut Vec<SqlValue>, tags: &Option<Vec<String>>)
    ensures
        final(sql)@ == old(sql)@ + when(
            query_tags(*tags).len() > 0,
            " AND (SELECT COUNT(DISTINCT value) FROM json_each(i.tags) WHERE value IN ("@ + placeholders(query_tags(*tags).len())
                + ")) = "@ + decimal(query_tags(*tags).len()),
        ),
        params_model(final(params)@) == params_model(old(params)@) + query_tags(*tags).map_values(
            |t: Seq<char>| SqlParam::Text(t),
        ),
{
    match tags {
        Some(t) => {
            assert(tag_texts(*tags) =~= texts_of(t@));
            let d = distinct_strings(t);
            add_tag_list(sql, params, &d);
            assert(texts_of(d@).len() == d@.len());
        },
        None => {
            assert(query_tags(*tags) =~= Seq::<Seq<char>>::empty());
            assert(Seq::<Seq<char>>::empty().map_values(|t: Seq<char>| SqlParam::Text(t)) =~= Seq::<SqlParam>::empty());
            assert(params_model(params@) + Seq::<SqlParam>::empty() =~= params_model(params@));
            assert(sql@ + Seq::<char>::empty() =~= sql@);
        },
    }
}

fn optional_text_of_id(id: &Option<crate::ids::ProjectId>) -> (r: Option<String>)
    ensures
        r is Some == id is Some,
        r is Some ==> r->0@ == id->0@,
{
    match id {
        Some(i) => Some(i.as_str().to_owned()),
        None => None,
    }
}

fn optional_key(t: &Option<Timestamp>) -> (r: Option<String>)
    ensures
        r is Some == t is Some,
        r is Some ==> r->0@ == chrono_rfc3339_nanos(t->0.seconds(), t->0.nanoseconds()),
{
    match t {
        Some(t) => Some(t.storage_key()),
        None => None,
    }
}

/// The search statement of a query (see [`search_sql_text`] and [`search_params`]).
pub fn build_search_sql(q: &SearchQuery) -> (r: SqlStatement)
    ensures
        r.sql@ == search_sql_text(*q),
        params_model(r.params@) == search_params(*q),
{
    let mut sql = "SELECT i.id, i.title, i.provenance,\n                    ".to_owned();
    sql.append("snippet(items_fts, 1, '', '', '…', 16) AS snippet,\n                    ");
    sql.append("-bm25(items_fts) AS score\n             ");
    sql.append("FROM items_fts JOIN items i ON i.rowid = items_fts.rowid\n             ");
    sql.append("WHERE items_fts MATCH ?");
    let mut params: Vec<SqlValue> = Vec::new();
    push_text(&mut params, fts_phrase(q.q.as_str()));
    add_text_filter(&mut sql, &mut params, " AND i.project_id = ?", optional_text_of_id(&q.project_id));
    let dir = match &q.target_dir {
        Some(d) => Some(d.clone()),
        None => None,
    };
    add_text_filter(&mut sql, &mut params, " AND i.target_dir = ?", dir);
    add_text_filter(&mut sql, &mut params, " AND i.created_at >= ?", optional_key(&q.after));
    add_text_filter(&mut sql, &mut params, " AND i.created_at <= ?", optional_key(&q.before));
    add_tags_filter(&mut sql, &mut params, &q.tags);
    let ghost p5 = params_model(params@);
    sql.append(" ORDER BY score DESC, i.id LIMIT ?");
    let top: i64 = match q.top_k {
        Some(k) => k as i64,
        None => DEFAULT_TOP_K as i64,
    };
    params.push(SqlValue::Integer(top));
    proof {
        assert(params_model(params@) =~= p5 + seq![SqlParam::Integer(top)]);
        assert(params_model(params@) =~= search_params(*q));
        assert(sql@ =~= search_sql_text(*q));
    }
    SqlStatement { sql, params }
}

// ---------------------------------------------------------------------------
// Placeholders and parameters of the search statement.
// ---------------------------------------------------------------------------

/// The number of `?` placeholders in a text from position `i` on.
pub open spec fn placeholders_from(s: Seq<char>, i: int) -> nat
    decreases s.len() - i,
{
    if i < 0 || i >= s.len() {
        0
    } else {
        (if s[i] == '?' {
            1nat
        } else {
            0nat
        }) + placeholders_from(s, i + 1)
    }
}

/// The number of `?` placeholders in a text.
pub open spec fn placeholder_count(s: Seq<char>) -> nat {
    placeholders_from(s, 0)
}

proof fn lemma_placeholders_shift(a: Seq<char>, b: Seq<char>, k: int)
    requires
        0 <= k <= b.len(),
    ensures
        placeholders_from(a + b, a.len() + k) == placeholders_from(b, k),
    decreases b.len() - k,
{
    if k < b.len() {
        lemma_placeholders_shift(a, b, k + 1);
        assert((a + b)[a.len() + k] == b[k]);
    }
}

proof fn lemma_placeholders_concat_from(a: Seq<char>, b: Seq<char>, i: int)
    requires
        0 <= i <= a.len(),
    ensures
        placeholders_from(a + b, i) == placeholders_from(a, i) + placeholders_from(b, 0),
    decreases a.len() - i,
{
    if i < a.len() {
        lemma_placeholders_concat_from(a, b, i + 1);
        assert((a + b)[i] == a[i]);
    } else {
        lemma_placeholders_shift(a, b, 0);
    }
}

proof fn lemma_placeholders_concat(a: Seq<char>, b: Seq<char>)
    ensures
        placeholder_count(a + b) == placeholder_count(a) + placeholder_count(b),
{
    lemma_placeholders_concat_from(a, b, 0);
}

proof fn lemma_placeholders_one(c: char)
    ensures
        placeholder_count(seq![c]) == (if c == '?' {
            1nat
        } else {
            0nat
        }),
{
    assert(placeholders_from(seq![c], 1) == 0);
}

/// A decimal text holds no placeholder.
proof fn lemma_decimal_placeholders(n: nat)
    ensures
        placeholder_count(decimal(n)) == 0,
    decreases n,
{
    lemma_placeholders_one(digit_char(n % 10));
    if n >= 10 {
        lemma_decimal_placeholders(n / 10);
        assert(decimal(n) == decimal(n / 10) + seq![digit_char(n % 10)]);
        lemma_placeholders_concat(decimal(n / 10), seq![digit_char(n % 10)]);
    }
}

proof fn lemma_text_head_select()
    ensures
        placeholder_count("SELECT i.id, i.title, i.provenance,\n                    "@) == 0,
{
    reveal_strlit("SELECT i.id, i.title, i.provenance,\n                    ");
    reveal_with_fuel(placeholders_from, 60);
}

proof fn lemma_text_head_snippet()
    ensures
        placeholder_count("snippet(items_fts, 1, '', '', '…', 16) AS snippet,\n                    "@) == 0,
{
    reveal_strlit("snippet(items_fts, 1, '', '', '…', 16) AS snippet,\n                    ");
    reveal_with_fuel(placeholders_from, 80);
}

proof fn lemma_text_head_score()
    ensures
        placeholder_count("-bm25(items_fts) AS score\n             "@) == 0,
{
    reveal_strlit("-bm25(items_fts) AS score\n             ");
    reveal_with_fuel(placeholders_from, 45);
}

proof fn lemma_text_head_from()
    ensures
        placeholder_count("FROM items_fts JOIN items i ON i.rowid = items_fts.rowid\n             "@) == 0,
{
    reveal_strlit("FROM items_fts JOIN items i ON i.rowid = items_fts.rowid\n             ");
    reveal_with_fuel(placeholders_from, 75);
}

proof fn lemma_text_head_match()
    ensures
        placeholder_count("WHERE items_fts MATCH ?"@) == 1,
{
    reveal_strlit("WHERE items_fts MATCH ?");
    reveal_with_fuel(placeholders_from, 30);
}

proof fn lemma_text_project_clause()
    ensures
        placeholder_count(" AND i.project_id = ?"@) == 1,
{
    reveal_strlit(" AND i.project_id = ?");
    reveal_with_fuel(placeholders_from, 30);
}

proof fn lemma_text_dir_clause()
    ensures
        placeholder_count(" AND i.target_dir = ?"@) == 1,
{
    reveal_strlit(" AND i.target_dir = ?");
    reveal_with_fuel(placeholders_from, 30);
}

proof fn lemma_text_after_clause()
    ensures
        placeholder_count(" AND i.created_at >= ?"@) == 1,
{
    reveal_strlit(" AND i.created_at >= ?");
    reveal_with_fuel(placeholders_from, 30);
}

proof fn lemma_text_before_clause()
    ensures
        placeholder_count(" AND i.created_at <= ?"@) == 1,
{
    reveal_strlit(" AND i.created_at <= ?");
    reveal_with_fuel(placeholders_from, 30);
}

proof fn lemma_text_tags_open()
    ensures
        placeholder_count(" AND (SELECT COUNT(DISTINCT value) FROM json_each(i.tags) WHERE value IN ("@) == 0,
{
    reveal_strlit(" AND (SELECT COUNT(DISTINCT value) FROM json_each(i.tags) WHERE value IN (");
    reveal_with_fuel(placeholders_from, 90);
}

proof fn lemma_text_one_mark()
    ensures
        placeholder_count("?"@) == 1,
{
    reveal_strlit("?");
    reveal_with_fuel(placeholders_from, 5);
}

proof fn lemma_text_next_mark()
    ensures
        placeholder_count(", ?"@) == 1,
{
    reveal_strlit(", ?");
    reveal_with_fuel(placeholders_from, 5);
}

proof fn lemma_text_tags_close()
    ensures
        placeholder_count(")) = "@) == 0,
{
    reveal_strlit(")) = ");
    reveal_with_fuel(placeholders_from, 10);
}

proof fn lemma_text_order_tail()
    ensures
        placeholder_count(" ORDER BY score DESC, i.id LIMIT ?"@) == 1,
{
    reveal_strlit(" ORDER BY score DESC, i.id LIMIT ?");
    reveal_with_fuel(placeholders_from, 40);
}

/// The fixed texts of the statement and their placeholders.
proof fn lemma_statement_texts()
    ensures
        placeholder_count(search_head()) == 1,
        placeholder_count(" AND i.project_id = ?"@) == 1,
        placeholder_count(" AND i.target_dir = ?"@) == 1,
        placeholder_count(" AND i.created_at >= ?"@) == 1,
        placeholder_count(" AND i.created_at <= ?"@) == 1,
        placeholder_count(" AND (SELECT COUNT(DISTINCT value) FROM json_each(i.tags) WHERE value IN ("@) == 0,
        placeholder_count("?"@) == 1,
        placeholder_count(", ?"@) == 1,
        placeholder_count(")) = "@) == 0,
        placeholder_count(" ORDER BY score DESC, i.id LIMIT ?"@) == 1,
{
    lemma_text_head_select();
    lemma_text_head_snippet();
    lemma_text_head_score();
    lemma_text_head_from();
    lemma_text_head_match();
    lemma_text_project_clause();
    lemma_text_dir_clause();
    lemma_text_after_clause();
    lemma_text_before_clause();
    lemma_text_tags_open();
    lemma_text_one_mark();
    lemma_text_next_mark();
    lemma_text_tags_close();
    lemma_text_order_tail();
    let h1 = "SELECT i.id, i.title, i.provenance,\n                    "@;
    let h2 = "snippet(items_fts, 1, '', '', '…', 16) AS snippet,\n                    "@;
    let h3 = "-bm25(items_fts) AS score\n             "@;
    let h4 = "FROM items_fts JOIN items i ON i.rowid = items_fts.rowid\n             "@;
    let h5 = "WHERE items_fts MATCH ?"@;
    lemma_placeholders_concat(h1, h2);
    lemma_placeholders_concat(h1 + h2, h3);
    lemma_placeholders_concat(h1 + h2 + h3, h4);
    lemma_placeholders_concat(h1 + h2 + h3 + h4, h5);
}

/// `n` joined placeholders hold `n` placeholders.
proof fn lemma_joined_placeholders(n: nat)
    ensures
        placeholder_count(placeholders(n)) == n,
    decreases n,
{
    lemma_statement_texts();
    if n == 0 {
        assert(placeholder_count(Seq::<char>::empty()) == 0);
    } else if n > 1 {
        lemma_joined_placeholders((n - 1) as nat);
        lemma_placeholders_concat(placeholders((n - 1) as nat), ", ?"@);
    }
}

proof fn lemma_when_placeholders(present: bool, clause: Seq<char>)
    ensures
        placeholder_count(when(present, clause)) == (if present {
            placeholder_count(clause)
        } else {
            0
        }),
{
    assert(placeholder_count(Seq::<char>::empty()) == 0);
}

/// Every placeholder of the search statement has its parameter: the statement holds as many
/// `?` as there are parameters, in the same order of filters.
pub proof fn law_search_placeholders_match_params(q: SearchQuery)
    ensures
        placeholder_count(search_sql_text(q)) == search_params(q).len(),
{
    lemma_statement_texts();
    let n = query_tags(q.tags).len();
    let c1 = when(q.project_id is Some, " AND i.project_id = ?"@);
    let c2 = when(q.target_dir is Some, " AND i.target_dir = ?"@);
    let c3 = when(q.after is Some, " AND i.created_at >= ?"@);
    let c4 = when(q.before is Some, " AND i.created_at <= ?"@);
    let x = " AND (SELECT COUNT(DISTINCT value) FROM json_each(i.tags) WHERE value IN ("@ + placeholders(n) + ")) = "@
        + decimal(n);
    let c5 = when(n > 0, x);
    let tail = " ORDER BY score DESC, i.id LIMIT ?"@;
    lemma_when_placeholders(q.project_id is Some, " AND i.project_id = ?"@);
    lemma_when_placeholders(q.target_dir is Some, " AND i.target_dir = ?"@);
    lemma_when_placeholders(q.after is Some, " AND i.created_at >= ?"@);
    lemma_when_placeholders(q.before is Some, " AND i.created_at <= ?"@);
    lemma_when_placeholders(n > 0, x);
    lemma_joined_placeholders(n);
    lemma_decimal_placeholders(n);
    let xa = " AND (SELECT COUNT(DISTINCT value) FROM json_each(i.tags) WHERE value IN ("@;
    lemma_placeholders_concat(xa, placeholders(n));
    lemma_placeholders_concat(xa + placeholders(n), ")) = "@);
    lemma_placeholders_concat(xa + placeholders(n) + ")) = "@, decimal(n));
    let h = search_head();
    lemma_placeholders_concat(h, c1);
    lemma_placeholders_concat(h + c1, c2);
    lemma_placeholders_concat(h + c1 + c2, c3);
    lemma_placeholders_concat(h + c1 + c2 + c3, c4);
    lemma_placeholders_concat(h + c1 + c2 + c3 + c4, c5);
    lemma_placeholders_concat(h + c1 + c2 + c3 + c4 + c5, tail);
    assert(search_sql_text(q) == h + c1 + c2 + c3 + c4 + c5 + tail);
}

/// The order of texts as SQLite compares TEXT values under its default (binary) collation,
/// for texts of ASCII characters such as the storage keys of times: the first differing
/// character decides, and a proper prefix comes first.
pub open spec fn text_le(a: Seq<char>, b: Seq<char>) -> bool
    decreases a.len(),
{
    if a.len() == 0 {
        true
    } else if b.len() == 0 {
        false
    } else if a[0] != b[0] {
        a[0] < b[0]
    } else {
        text_le(a.drop_first(), b.drop_first())
    }
}

/// Whether the comparison clause ` AND i.<column> <op> ?`, its placeholder bound to `param`,
/// admits a row whose column holds `value`; a text of another form admits nothing.
pub open spec fn comparison_admits(clause: Seq<char>, column: Seq<char>, value: Seq<char>, param: Seq<char>) -> bool {
    let lead = " AND i."@ + column;
    if clause == lead + " <= ?"@ {
        text_le(value, param)
    } else if clause == lead + " >= ?"@ {
        text_le(param, value)
    } else if clause == lead + " = ?"@ {
        value == param
    } else {
        false
    }
}

/// A text cut into three consecutive pieces.
pub open spec fn cut_into(s: Seq<char>, pre: Seq<char>, mid: Seq<char>, post: Seq<char>) -> bool {
    s == pre + mid + post
}

/// The storage key of a time (what the index holds in `created_at`).
pub open spec fn time_key(t: Timestamp) -> Seq<char> {
    chrono_rfc3339_nanos(t.seconds(), t.nanoseconds())
}

/// The `before` filter of a search admits exactly the notes created at or before that time,
/// and the `after` filter exactly those created at or after it: the statement holds a clause
/// whose placeholder is bound to the time's storage key and which admits a row's
/// `created_at` key exactly when it is in that order with the bound.
pub proof fn law_search_time_filters(q: SearchQuery)
    ensures
        q.before is Some ==> exists|pre: Seq<char>, c: Seq<char>, post: Seq<char>|
            #[trigger] cut_into(search_sql_text(q), pre, c, post) && placeholder_count(pre) < search_params(q).len()
                && search_params(q)[placeholder_count(pre) as int] == SqlParam::Text(time_key(q.before->0))
                && forall|row: Seq<char>|
                comparison_admits(c, "created_at"@, row, time_key(q.before->0)) == text_le(row, time_key(q.before->0)),
        q.after is Some ==> exists|pre: Seq<char>, c: Seq<char>, post: Seq<char>|
            #[trigger] cut_into(search_sql_text(q), pre, c, post) && placeholder_count(pre) < search_params(q).len()
                && search_params(q)[placeholder_count(pre) as int] == SqlParam::Text(time_key(q.after->0))
                && forall|row: Seq<char>|
                comparison_admits(c, "created_at"@, row, time_key(q.after->0)) == text_le(time_key(q.after->0), row),
{
    lemma_statement_texts();
    reveal_strlit(" AND i.created_at <= ?");
    reveal_strlit(" AND i.created_at >= ?");
    reveal_strlit(" AND i.");
    reveal_strlit("created_at");
    reveal_strlit(" <= ?");
    reveal_strlit(" >= ?");
    let le_clause = " AND i.created_at <= ?"@;
    let ge_clause = " AND i.created_at >= ?"@;
    assert(le_clause =~= " AND i."@ + "created_at"@ + " <= ?"@);
    assert(ge_clause =~= " AND i."@ + "created_at"@ + " >= ?"@);
    assert(ge_clause != " AND i."@ + "created_at"@ + " <= ?"@) by {
        assert(ge_clause[18] != (" AND i."@ + "created_at"@ + " <= ?"@)[18]);
    }
    let n = query_tags(q.tags).len();
    let c1 = when(q.project_id is Some, " AND i.project_id = ?"@);
    let c2 = when(q.target_dir is Some, " AND i.target_dir = ?"@);
    let c3 = when(q.after is Some, ge_clause);
    let c4 = when(q.before is Some, le_clause);
    let x = " AND (SELECT COUNT(DISTINCT value) FROM json_each(i.tags) WHERE value IN ("@ + placeholders(n) + ")) = "@
        + decimal(n);
    let c5 = when(n > 0, x);
    let tail = " ORDER BY score DESC, i.id LIMIT ?"@;
    let h = search_head();
    lemma_when_placeholders(q.project_id is Some, " AND i.project_id = ?"@);
    lemma_when_placeholders(q.target_dir is Some, " AND i.target_dir = ?"@);
    lemma_when_placeholders(q.after is Some, ge_clause);
    lemma_placeholders_concat(h, c1);
    lemma_placeholders_concat(h + c1, c2);
    lemma_placeholders_concat(h + c1 + c2, c3);
    assert(search_sql_text(q) == h + c1 + c2 + c3 + c4 + c5 + tail);
    let ps = search_params(q);
    law_search_placeholders_match_params(q);
    let p0 = seq![SqlParam::Text(fts_phrase_of(q.q@))];
    let p1 = text_param(q.project_id is Some, q.project_id->0@);
    let p2 = text_param(q.target_dir is Some, q.target_dir->0@);
    let p3 = text_param(q.after is Some, chrono_rfc3339_nanos(q.after->0.seconds(), q.after->0.nanoseconds()));
    let p4 = text_param(q.before is Some, chrono_rfc3339_nanos(q.before->0.seconds(), q.before->0.nanoseconds()));
    let rest = query_tags(q.tags).map_values(|t: Seq<char>| SqlParam::Text(t)) + seq![SqlParam::Integer(
        match q.top_k {
            Some(k) => k as i64,
            None => DEFAULT_TOP_K as i64,
        },
    )];
    assert(ps =~= p0 + p1 + p2 + p3 + p4 + rest);
    if q.before is Some {
        let pre = h + c1 + c2 + c3;
        let post = c5 + tail;
        assert(search_sql_text(q) =~= pre + le_clause + post);
        assert(placeholder_count(pre) == (p0 + p1 + p2 + p3).len());
        assert(ps[placeholder_count(pre) as int] == SqlParam::Text(time_key(q.before->0)));
        assert(cut_into(search_sql_text(q), pre, le_clause, post));
    }
    if q.after is Some {
        let pre = h + c1 + c2;
        let post = c4 + c5 + tail;
        assert(search_sql_text(q) =~= pre + ge_clause + post);
        assert(placeholder_count(pre) == (p0 + p1 + p2).len());
        assert(ps[placeholder_count(pre) as int] == SqlParam::Text(time_key(q.after->0)));
        assert(cut_into(search_sql_text(q), pre, ge_clause, post));
    }
}

// ---------------------------------------------------------------------------
// Creating a note.
// ---------------------------------------------------------------------------

/// A new ULID from the ulid crate (`Ulid::new`, from the clock and a random source, printed
/// by `Ulid::to_string`): 26 chars of the Crockford Base32 alphabet, as the crate's encoder
/// writes them. Nothing else is stated: the value depends on time and chance.
#[verifier::external_body]
fn fresh_ulid() -> (s: String)
    ensures
        ulid_body(s@),
{
    ulid::Ulid::new().to_string()
}

/// A new note id (`itm_` and a fresh ULID).
pub fn new_note_id() -> (id: NoteId)
    ensures
        is_id_of("itm"@, id@),
{
    let u = fresh_ulid();
    NoteId::from_ulid(u.as_str()).unwrap()
}

fn clone_strings(v: &Vec<String>) -> (r: Vec<String>)
    ensures
        r@ == v@,
{
    let mut r: Vec<String> = Vec::new();
    let mut i: usize = 0;
    while i < v.len()
        invariant
            i <= v.len(),
            r@ == v@.take(i as int),
        decreases v.len() - i,
    {
        r.push(v[i].clone());
        proof {
            assert(v@.take(i + 1) =~= v@.take(i as int).push(v@[i as int]));
        }
        i = i + 1;
    }
    assert(v@.take(i as int) =~= v@);
    r
}

fn clone_opt_string(v: &Option<String>) -> (r: Option<String>)
    ensures
        r == *v,
{
    match v {
        Some(s) => Some(s.clone()),
        None => None,
    }
}

/// The origin recorded for notes created by hand.
pub open spec fn manual_origin() -> Seq<char> {
    "manual"@
}

/// The note a create request makes, with the given id and time: the request's fields, the
/// Markdown format when none is given, no tags when none are given, a manual provenance,
/// and equal creation and update times.
pub fn build_note(req: &CreateNoteRequest, id: NoteId, now: Timestamp) -> (n: NoteResponse)
    ensures
        n.id == id,
        n.project_id@ == req.project_id@,
        n.title == req.title,
        n.body == req.body,
        n.target_dir == req.target_dir,
        n.format == match req.format {
            Some(f) => f,
            None => NoteFormat::Markdown,
        },
        n.tags@ == match req.tags {
            Some(t) => t@,
            None => Seq::empty(),
        },
        n.provenance.source == ProvenanceSource::Manual,
        n.provenance.origin@ == manual_origin(),
        !n.provenance.imported,
        n.created_at == now,
        n.updated_at == now,
{
    let tags = match &req.tags {
        Some(t) => clone_strings(t),
        None => Vec::new(),
    };
    NoteResponse {
        id,
        project_id: req.project_id.duplicate(),
        title: req.title.clone(),
        body: req.body.clone(),
        target_dir: clone_opt_string(&req.target_dir),
        format: match req.format {
            Some(f) => f,
            None => NoteFormat::Markdown,
        },
        tags,
        provenance: Provenance {
            source: ProvenanceSource::Manual,
            origin: "manual".to_owned(),
            imported: false,
        },
        created_at: now,
        updated_at: now,
    }
}

/// The fields a create request gives its note: the request's own, the Markdown format when
/// none is given, no tags when none are given, and a manual provenance.
pub open spec fn note_of_request(n: NoteResponse, req: CreateNoteRequest) -> bool {
    &&& n.project_id@ == req.project_id@
    &&& n.title == req.title
    &&& n.body == req.body
    &&& n.target_dir == req.target_dir
    &&& n.format == match req.format {
        Some(f) => f,
        None => NoteFormat::Markdown,
    }
    &&& n.tags@ == match req.tags {
        Some(t) => t@,
        None => Seq::empty(),
    }
    &&& n.provenance.source == ProvenanceSource::Manual
    &&& n.provenance.origin@ == manual_origin()
    &&& !n.provenance.imported
}

/// The note a create request makes now, with a fresh id (see [`build_note`]); nothing when
/// the system clock reads an instant that chrono cannot represent.
pub fn prepare_note(req: &CreateNoteRequest) -> (r: Option<NoteResponse>)
    ensures
        r matches Some(n) ==> is_id_of("itm"@, n.id@) && note_of_request(n, *req) && n.created_at
            == n.updated_at,
{
    match Timestamp::now() {
        Some(now) => Some(build_note(req, new_note_id(), now)),
        None => None,
    }
}

/// Where the creation of a note stands.
#[derive(Debug, Clone, PartialEq)]
pub enum CreateState {
    /// Waiting for the project check.
    Checking,
    /// Waiting for the note file to be written.
    Writing,
    /// Waiting for the index transaction.
    Indexing,
    /// Waiting for the orphan file to be removed after a failed transaction (the failure).
    Removing(String),
    /// Finished.
    Done,
}

/// What happened in the outside world.
#[derive(Debug, PartialEq)]
pub enum CreateEvent {
    /// Whether the note's project exists.
    ProjectChecked(bool),
    /// The note file was written, or the failure.
    FileWritten(Result<(), String>),
    /// The index rows were committed, or the failure.
    Indexed(Result<(), String>),
    /// The orphan file removal was attempted (its own result does not matter).
    OrphanRemoved,
}

/// How a creation ended.
#[derive(Debug, Clone, PartialEq)]
pub enum CreateOutcome {
    /// The file and the index rows are both in place.
    Created,
    /// The project does not exist; nothing was written.
    ProjectNotFound,
    /// Storage failed (with the failure); no file is left behind by a failed transaction.
    StorageFailed(String),
}

/// What to do next.
#[derive(Debug, Clone, PartialEq)]
pub enum CreateAction {
    /// Check that the project exists.
    CheckProject,
    /// Write the note file (the truth) first.
    WriteFile,
    /// Commit the note row and its full-text row in one transaction.
    IndexNote,
    /// Remove the file just written.
    RemoveOrphan,
    /// Stop with this outcome.
    Finish(CreateOutcome),
}

/// Whether an event answers the action a state waits for.
pub open spec fn event_fits(state: CreateState, event: CreateEvent) -> bool {
    match (state, event) {
        (CreateState::Checking, CreateEvent::ProjectChecked(_)) => true,
        (CreateState::Writing, CreateEvent::FileWritten(_)) => true,
        (CreateState::Indexing, CreateEvent::Indexed(_)) => true,
        (CreateState::Removing(_), CreateEvent::OrphanRemoved) => true,
        _ => false,
    }
}

/// Whether an event answers the action a state waits for (see [`event_fits`]).
pub fn event_answers(state: &CreateState, event: &CreateEvent) -> (r: bool)
    ensures
        r == event_fits(*state, *event),
{
    match (state, event) {
        (CreateState::Checking, CreateEvent::ProjectChecked(_)) => true,
        (CreateState::Writing, CreateEvent::FileWritten(_)) => true,
        (CreateState::Indexing, CreateEvent::Indexed(_)) => true,
        (CreateState::Removing(_), CreateEvent::OrphanRemoved) => true,
        _ => false,
    }
}

/// The first state and action of a creation.
pub fn create_start() -> (r: (CreateState, CreateAction))
    ensures
        r == (CreateState::Checking, CreateAction::CheckProject),
{
    (CreateState::Checking, CreateAction::CheckProject)
}

/// The next state and action of a creation.
pub open spec fn create_next(state: CreateState, event: CreateEvent) -> (CreateState, CreateAction) {
    match (state, event) {
        (CreateState::Checking, CreateEvent::ProjectChecked(true)) => (
            CreateState::Writing,
            CreateAction::WriteFile,
        ),
        (CreateState::Checking, CreateEvent::ProjectChecked(false)) => (
            CreateState::Done,
            CreateAction::Finish(CreateOutcome::ProjectNotFound),
        ),
        (CreateState::Writing, CreateEvent::FileWritten(Ok(()))) => (
            CreateState::Indexing,
            CreateAction::IndexNote,
        ),
        (CreateState::Writing, CreateEvent::FileWritten(Err(e))) => (
            CreateState::Done,
            CreateAction::Finish(CreateOutcome::StorageFailed(e)),
        ),
        (CreateState::Indexing, CreateEvent::Indexed(Ok(()))) => (
            CreateState::Done,
            CreateAction::Finish(CreateOutcome::Created),
        ),
        (CreateState::Indexing, CreateEvent::Indexed(Err(e))) => (
            CreateState::Removing(e),
            CreateAction::RemoveOrphan,
        ),
        (CreateState::Removing(e), CreateEvent::OrphanRemoved) => (
            CreateState::Done,
            CreateAction::Finish(CreateOutcome::StorageFailed(e)),
        ),
        _ => (state, CreateAction::Finish(CreateOutcome::Created)),
    }
}

/// The actions of a creation from a state, for a sequence of events (up to the first that
/// does not fit, or the end).
pub open spec fn create_run(state: CreateState, events: Seq<CreateEvent>) -> Seq<CreateAction>
    decreases events.len(),
{
    if events.len() == 0 || state == CreateState::Done || !event_fits(state, events[0]) {
        Seq::empty()
    } else {
        seq![create_next(state, events[0]).1] + create_run(create_next(state, events[0]).0, events.drop_first())
    }
}

/// One step of a creation: the file is written only after the project is found, the index
/// only after the file, and a failed transaction removes the file before finishing.
pub fn create_step(state: CreateState, event: CreateEvent) -> (r: (CreateState, CreateAction))
    requires
        event_fits(state, event),
    ensures
        r == create_next(state, event),
{
    match (state, event) {
        (CreateState::Checking, CreateEvent::ProjectChecked(found)) => {
            if found {
                (CreateState::Writing, CreateAction::WriteFile)
            } else {
                (CreateState::Done, CreateAction::Finish(CreateOutcome::ProjectNotFound))
            }
        },
        (CreateState::Writing, CreateEvent::FileWritten(res)) => match res {
            Ok(()) => (CreateState::Indexing, CreateAction::IndexNote),
            Err(e) => (CreateState::Done, CreateAction::Finish(CreateOutcome::StorageFailed(e))),
        },
        (CreateState::Indexing, CreateEvent::Indexed(res)) => match res {
            Ok(()) => (CreateState::Done, CreateAction::Finish(CreateOutcome::Created)),
            Err(e) => (CreateState::Removing(e), CreateAction::RemoveOrphan),
        },
        (CreateState::Removing(e), CreateEvent::OrphanRemoved) => (
            CreateState::Done,
            CreateAction::Finish(CreateOutcome::StorageFailed(e)),
        ),
        (s, _) => (s, CreateAction::Finish(CreateOutcome::Created)),
    }
}

/// A creation whose project is missing writes nothing: it finishes at once, before any
/// file or index action.
pub proof fn law_missing_project_leaves_no_trace(events: Seq<CreateEvent>)
    requires
        events.len() > 0,
        events[0] == CreateEvent::ProjectChecked(false),
    ensures
        create_run(CreateState::Checking, events) == seq![CreateAction::Finish(CreateOutcome::ProjectNotFound)],
{
    assert(create_run(CreateState::Done, events.drop_first()) == Seq::<CreateAction>::empty());
    assert(create_run(CreateState::Checking, events) =~= seq![CreateAction::Finish(CreateOutcome::ProjectNotFound)]);
}

/// A creation whose index transaction fails removes the note file before it finishes, and
/// finishes with the transaction's failure: no file is left without its index rows.
pub proof fn law_failed_index_removes_file(e: String, rest: Seq<CreateEvent>)
    ensures
        create_run(
            CreateState::Checking,
            seq![
                CreateEvent::ProjectChecked(true),
                CreateEvent::FileWritten(Ok(())),
                CreateEvent::Indexed(Err(e)),
                CreateEvent::OrphanRemoved,
            ] + rest,
        ) == seq![
            CreateAction::WriteFile,
            CreateAction::IndexNote,
            CreateAction::RemoveOrphan,
            CreateAction::Finish(CreateOutcome::StorageFailed(e)),
        ],
{
    let evs = seq![
        CreateEvent::ProjectChecked(true),
        CreateEvent::FileWritten(Ok(())),
        CreateEvent::Indexed(Err(e)),
        CreateEvent::OrphanRemoved,
    ] + rest;
    let e1 = evs.drop_first();
    let e2 = e1.drop_first();
    let e3 = e2.drop_first();
    let e4 = e3.drop_first();
    assert(e1[0] == CreateEvent::FileWritten(Ok(())));
    assert(e2[0] == CreateEvent::Indexed(Err(e)));
    assert(e3[0] == CreateEvent::OrphanRemoved);
    assert(create_run(CreateState::Done, e4) == Seq::<CreateAction>::empty());
    assert(create_run(CreateState::Removing(e), e3) =~= seq![CreateAction::Finish(CreateOutcome::StorageFailed(e))]);
    assert(create_run(CreateState::Indexing, e2) =~= seq![
        CreateAction::RemoveOrphan,
        CreateAction::Finish(CreateOutcome::StorageFailed(e)),
    ]);
    assert(create_run(CreateState::Writing, e1) =~= seq![
        CreateAction::IndexNote,
        CreateAction::RemoveOrphan,
        CreateAction::Finish(CreateOutcome::StorageFailed(e)),
    ]);
    assert(create_run(CreateState::Checking, evs) =~= seq![
        CreateAction::WriteFile,
        CreateAction::IndexNote,
        CreateAction::RemoveOrphan,
        CreateAction::Finish(CreateOutcome::StorageFailed(e)),
    ]);
}

/// Every creation that finishes `Created` wrote the file and then the index: the run is
/// exactly project check passed, file, index.
pub proof fn law_created_means_file_and_index(events: Seq<CreateEvent>)
    requires
        create_run(CreateState::Checking, events).contains(CreateAction::Finish(CreateOutcome::Created)),
    ensures
        create_run(CreateState::Checking, events) == seq![
            CreateAction::WriteFile,
            CreateAction::IndexNote,
            CreateAction::Finish(CreateOutcome::Created),
        ],
{
    let r0 = create_run(CreateState::Checking, events);
    assert(events.len() > 0);
    let e1 = events.drop_first();
    match events[0] {
        CreateEvent::ProjectChecked(found) => {
            if !found {
                assert(create_run(CreateState::Done, e1) == Seq::<CreateAction>::empty());
                assert(r0 =~= seq![CreateAction::Finish(CreateOutcome::ProjectNotFound)]);
                assert(false);
            }
            let r1 = create_run(CreateState::Writing, e1);
            assert(r0 =~= seq![CreateAction::WriteFile] + r1);
            assert(r1.contains(CreateAction::Finish(CreateOutcome::Created))) by {
                let k = choose|k: int| 0 <= k < r0.len() && r0[k] == CreateAction::Finish(CreateOutcome::Created);
                assert(r1[k - 1] == r0[k]);
            }
            assert(e1.len() > 0);
            let e2 = e1.drop_first();
            match e1[0] {
                CreateEvent::FileWritten(res) => {
                    if res is Err {
                        assert(create_run(CreateState::Done, e2) == Seq::<CreateAction>::empty());
                        assert(r1 =~= seq![CreateAction::Finish(CreateOutcome::StorageFailed(res->Err_0))]);
                        assert(false);
                    }
                    let r2 = create_run(CreateState::Indexing, e2);
                    assert(r1 =~= seq![CreateAction::IndexNote] + r2);
                    assert(r2.contains(CreateAction::Finish(CreateOutcome::Created))) by {
                        let k = choose|k: int| 0 <= k < r1.len() && r1[k] == CreateAction::Finish(CreateOutcome::Created);
                        assert(r2[k - 1] == r1[k]);
                    }
                    assert(e2.len() > 0);
                    let e3 = e2.drop_first();
                    match e2[0] {
                        CreateEvent::Indexed(res2) => {
                            if res2 is Err {
                                let er = res2->Err_0;
                                let r3 = create_run(CreateState::Removing(er), e3);
                                assert(r2 =~= seq![CreateAction::RemoveOrphan] + r3);
                                if e3.len() > 0 && e3[0] == CreateEvent::OrphanRemoved {
                                    assert(create_run(CreateState::Done, e3.drop_first()) == Seq::<CreateAction>::empty());
                                    assert(r3 =~= seq![CreateAction::Finish(CreateOutcome::StorageFailed(er))]);
                                } else {
                                    assert(r3 =~= Seq::<CreateAction>::empty());
                                }
                                let k = choose|k: int| 0 <= k < r2.len() && r2[k] == CreateAction::Finish(CreateOutcome::Created);
                                assert(false);
                            }
                            assert(create_run(CreateState::Done, e3) == Seq::<CreateAction>::empty());
                            assert(r2 =~= seq![CreateAction::Finish(CreateOutcome::Created)]);
                            assert(r0 =~= seq![
                                CreateAction::WriteFile,
                                CreateAction::IndexNote,
                                CreateAction::Finish(CreateOutcome::Created),
                            ]);
                        },
                        _ => {
                            assert(r2 =~= Seq::<CreateAction>::empty());
                        },
                    }
                },
                _ => {
                    assert(r1 =~= Seq::<CreateAction>::empty());
                },
            }
        },
        _ => {
            assert(r0 =~= Seq::<CreateAction>::empty());
        },
    }
}

// ---------------------------------------------------------------------------
// Index rows.
// ---------------------------------------------------------------------------

/// A row that cannot become a value: its column and why.
#[derive(Debug, Clone, PartialEq)]
pub struct RowError {
    pub column: usize,
    pub message: String,
}

/// The texts of a list of strings.
pub open spec fn texts_of(items: Seq<String>) -> Seq<Seq<char>> {
    items.map_values(|s: String| s@)
}

/// A list of strings read from JSON.
pub open spec fn strings_read(items: Seq<Seq<char>>) -> Result<Seq<Seq<char>>, Seq<char>> {
    Ok(items)
}

/// JSON refused as a list of strings, with the message.
pub open spec fn strings_refused(message: Seq<char>) -> Result<Seq<Seq<char>>, Seq<char>> {
    Err(message)
}

/// What serde_json's `from_str::<Vec<String>>` yields for a text: the strings of a JSON array
/// of strings, or the message of its error.
pub uninterp spec fn serde_json_strings(text: Seq<char>) -> Result<Seq<Seq<char>>, Seq<char>>;

/// The JSON text serde_json's `to_string` writes for a list of strings.
pub uninterp spec fn serde_json_strings_text(items: Seq<Seq<char>>) -> Seq<char>;

/// serde_json's `from_str::<Vec<String>>`: the strings of a JSON array of strings, or the
/// error's message (`to_string` of the error). Both depend on the text alone.
#[verifier::external_body]
fn decode_strings(text: &str) -> (r: Result<Vec<String>, String>)
    ensures
        r matches Ok(v) ==> serde_json_strings(text@) == strings_read(texts_of(v@)),
        r matches Err(m) ==> serde_json_strings(text@) == strings_refused(m@),
{
    serde_json::from_str::<Vec<String>>(text).map_err(|e| e.to_string())
}

/// serde_json's `to_string` of a list of strings (it cannot fail on strings), which serde_json
/// reads back as the same strings.
#[verifier::external_body]
fn encode_strings(items: &Vec<String>) -> (s: String)
    ensures
        s@ == serde_json_strings_text(texts_of(items@)),
        serde_json_strings(s@) == strings_read(texts_of(items@)),
{
    match serde_json::to_string(items) {
        Ok(s) => s,
        Err(_) => String::new(),
    }
}

/// A row of the `items` table, as read (the tags as stored JSON text; the provenance JSON already decoded, or
/// the decoding failure).
#[derive(Debug, PartialEq)]
pub struct NoteRow {
    pub id: String,
    pub project_id: String,
    pub title: String,
    pub body: String,
    pub target_dir: Option<String>,
    pub format: String,
    pub tags: String,
    pub provenance: Result<Provenance, String>,
    pub created_at: String,
    pub updated_at: String,
}

/// The message of an unknown note format.
pub open spec fn unknown_format_text(format: Seq<char>) -> Seq<char> {
    "未知笔记格式："@ + format
}

/// The first column of a note row that cannot be read, in the order they are checked:
/// format (5), id (0), project (1), tags (6), provenance (7), created (8), updated (9).
pub open spec fn note_row_failure(row: NoteRow) -> Option<usize> {
    if row.format@ != "markdown"@ {
        Some(5)
    } else if !is_id_of("itm"@, row.id@) {
        Some(0)
    } else if !is_id_of("prj"@, row.project_id@) {
        Some(1)
    } else if serde_json_strings(row.tags@) is Err {
        Some(6)
    } else if row.provenance is Err {
        Some(7)
    } else if crate::common::chrono_parse_utc(row.created_at@) is None {
        Some(8)
    } else if crate::common::chrono_parse_utc(row.updated_at@) is None {
        Some(9)
    } else {
        None
    }
}

/// The note read from a row: the row's texts, the Markdown format, the decoded tags and
/// provenance, and the instants of the two times.
pub open spec fn note_of_row(row: NoteRow, n: NoteResponse) -> bool {
    &&& n.id@ == row.id@
    &&& n.project_id@ == row.project_id@
    &&& n.title == row.title
    &&& n.body == row.body
    &&& n.target_dir == row.target_dir
    &&& n.format == NoteFormat::Markdown
    &&& serde_json_strings(row.tags@) == strings_read(texts_of(n.tags@))
    &&& n.provenance == row.provenance->Ok_0
    &&& Some((n.created_at.seconds(), n.created_at.nanoseconds())) == crate::common::chrono_parse_utc(row.created_at@)
    &&& Some((n.updated_at.seconds(), n.updated_at.nanoseconds())) == crate::common::chrono_parse_utc(row.updated_at@)
}

/// A note from its index row.
pub fn note_from_row(row: NoteRow) -> (r: Result<NoteResponse, RowError>)
    ensures
        r is Ok <==> note_row_failure(row) is None,
        r matches Err(e) ==> Some(e.column) == note_row_failure(row) && (e.column == 5 ==> e.message@
            == unknown_format_text(row.format@)) && (e.column == 0 ==> e.message@
            == id_parse_error_text("NoteId"@, "itm"@, row.id@)) && (e.column == 1 ==> e.message@
            == id_parse_error_text("ProjectId"@, "prj"@, row.project_id@)) && (e.column == 6
            ==> serde_json_strings(row.tags@) == strings_refused(e.message@)) && (e.column == 7 ==> e.message
            == row.provenance->Err_0) && (e.column == 8 || e.column == 9 ==> exists|d: Seq<char>|
            e.message@ == timestamp_error_text(d)),
        r matches Ok(n) ==> note_of_row(row, n),
{
    if !str_eq(row.format.as_str(), "markdown") {
        let mut m = "未知笔记格式：".to_owned();
        m.append(row.format.as_str());
        return Err(RowError { column: 5, message: m });
    }
    let id = match NoteId::parse(row.id.as_str()) {
        Ok(id) => id,
        Err(m) => return Err(RowError { column: 0, message: m }),
    };
    let project_id = match ProjectId::parse(row.project_id.as_str()) {
        Ok(p) => p,
        Err(m) => return Err(RowError { column: 1, message: m }),
    };
    let tags = match decode_strings(row.tags.as_str()) {
        Ok(t) => t,
        Err(m) => return Err(RowError { column: 6, message: m }),
    };
    let provenance = match row.provenance {
        Ok(p) => p,
        Err(m) => return Err(RowError { column: 7, message: m }),
    };
    let created_at = match Timestamp::parse_rfc3339(row.created_at.as_str()) {
        Ok(t) => t,
        Err(m) => return Err(RowError { column: 8, message: m }),
    };
    let updated_at = match Timestamp::parse_rfc3339(row.updated_at.as_str()) {
        Ok(t) => t,
        Err(m) => return Err(RowError { column: 9, message: m }),
    };
    Ok(NoteResponse {
        id,
        project_id,
        title: row.title,
        body: row.body,
        target_dir: row.target_dir,
        format: NoteFormat::Markdown,
        tags,
        provenance,
        created_at,
        updated_at,
    })
}

/// The row the index holds for a note: its texts, the format `markdown`, its tags and
/// provenance, and the storage keys of its two times.
pub open spec fn index_row_of(r: NoteRow, n: NoteResponse) -> bool {
    &&& r.id@ == n.id@
    &&& r.project_id@ == n.project_id@
    &&& r.title == n.title
    &&& r.body == n.body
    &&& r.target_dir == n.target_dir
    &&& r.format@ == "markdown"@
    &&& r.tags@ == serde_json_strings_text(texts_of(n.tags@))
    &&& r.provenance == Ok::<Provenance, String>(n.provenance)
    &&& r.created_at@ == chrono_rfc3339_nanos(n.created_at.seconds(), n.created_at.nanoseconds())
    &&& r.updated_at@ == chrono_rfc3339_nanos(n.updated_at.seconds(), n.updated_at.nanoseconds())
}

/// A note whose index row can be read back: times of the years 1 to 9999 (leap seconds
/// aside). Its ids always can.
pub open spec fn readable_note(n: NoteResponse) -> bool {
    &&& n.created_at.in_rfc3339_range()
    &&& n.updated_at.in_rfc3339_range()
}

/// Two notes with the same fields (ids and tags by their texts).
pub open spec fn same_note(a: NoteResponse, b: NoteResponse) -> bool {
    &&& a.id@ == b.id@
    &&& a.project_id@ == b.project_id@
    &&& a.title == b.title
    &&& a.body == b.body
    &&& a.target_dir == b.target_dir
    &&& a.format == b.format
    &&& texts_of(a.tags@) == texts_of(b.tags@)
    &&& a.provenance == b.provenance
    &&& a.created_at == b.created_at
    &&& a.updated_at == b.updated_at
}

fn copy_provenance(p: &Provenance) -> (r: Provenance)
    ensures
        r == *p,
{
    Provenance { source: p.source, origin: p.origin.clone(), imported: p.imported }
}

/// The index row of a note. What is written is what is read: the row of a readable note
/// holds no failure, and every note read from it is that note.
pub fn note_index_row(n: &NoteResponse) -> (r: NoteRow)
    ensures
        index_row_of(r, *n),
        readable_note(*n) ==> note_row_failure(r) is None,
        readable_note(*n) ==> forall|m: NoteResponse| note_of_row(r, m) ==> same_note(m, *n),
{
    let r = NoteRow {
        id: n.id.as_str().to_owned(),
        project_id: n.project_id.as_str().to_owned(),
        title: n.title.clone(),
        body: n.body.clone(),
        target_dir: clone_opt_string(&n.target_dir),
        format: "markdown".to_owned(),
        tags: encode_strings(&n.tags),
        provenance: Ok(copy_provenance(&n.provenance)),
        created_at: n.created_at.storage_key(),
        updated_at: n.updated_at.storage_key(),
    };
    proof {
        if readable_note(*n) {
            assert forall|m: NoteResponse| note_of_row(r, m) implies same_note(m, *n) by {
                crate::common::lemma_same_instant(m.created_at, n.created_at);
                crate::common::lemma_same_instant(m.updated_at, n.updated_at);
                match n.format {
                    NoteFormat::Markdown => {},
                }
            }
        }
    }
    r
}

/// A row of the `projects` table, as read.
#[derive(Debug, Clone, PartialEq)]
pub struct ProjectRow {
    pub id: String,
    pub name: String,
    pub sensitive: i64,
    pub template_id: Option<String>,
    pub created_at: String,
    pub updated_at: String,
}

/// The first column of a project row that cannot be read: the id (0), the template id (3),
/// then the two times (reported at column 0).
pub open spec fn project_row_failure(row: ProjectRow) -> Option<usize> {
    if !is_id_of("prj"@, row.id@) {
        Some(0)
    } else if row.template_id is Some && !is_id_of("tpl"@, row.template_id->0@) {
        Some(3)
    } else if crate::common::chrono_parse_utc(row.created_at@) is None
        || crate::common::chrono_parse_utc(row.updated_at@) is None {
        Some(0)
    } else {
        None
    }
}

/// A project from its index row (sensitive when the stored flag is not 0).
pub fn project_from_row(row: ProjectRow) -> (r: Result<Project, RowError>)
    ensures
        r is Ok <==> project_row_failure(row) is None,
        r matches Err(e) ==> Some(e.column) == project_row_failure(row) && (!is_id_of("prj"@, row.id@)
            ==> e.message@ == id_parse_error_text("ProjectId"@, "prj"@, row.id@)) && (is_id_of(
            "prj"@,
            row.id@,
        ) && e.column == 3 ==> e.message@ == id_parse_error_text(
            "TemplateId"@,
            "tpl"@,
            row.template_id->0@,
        )) && (is_id_of("prj"@, row.id@) && e.column == 0 ==> exists|d: Seq<char>|
            e.message@ == timestamp_error_text(d)),
        r matches Ok(p) ==> p.id@ == row.id@ && p.name == row.name && p.sensitive == (row.sensitive
            != 0) && (p.template_id is Some <==> row.template_id is Some) && (p.template_id is Some
            ==> p.template_id->0@ == row.template_id->0@) && Some(
            (p.created_at.seconds(), p.created_at.nanoseconds()),
        ) == crate::common::chrono_parse_utc(row.created_at@) && Some(
            (p.updated_at.seconds(), p.updated_at.nanoseconds()),
        ) == crate::common::chrono_parse_utc(row.updated_at@),
{
    let id = match ProjectId::parse(row.id.as_str()) {
        Ok(id) => id,
        Err(m) => return Err(RowError { column: 0, message: m }),
    };
    let template_id = match &row.template_id {
        Some(s) => match TemplateId::parse(s.as_str()) {
            Ok(t) => Some(t),
            Err(m) => return Err(RowError { column: 3, message: m }),
        },
        None => None,
    };
    let created_at = match Timestamp::parse_rfc3339(row.created_at.as_str()) {
        Ok(t) => t,
        Err(m) => return Err(RowError { column: 0, message: m }),
    };
    let updated_at = match Timestamp::parse_rfc3339(row.updated_at.as_str()) {
        Ok(t) => t,
        Err(m) => return Err(RowError { column: 0, message: m }),
    };
    Ok(Project { id, name: row.name, sensitive: row.sensitive != 0, template_id, created_at, updated_at })
}

} // verus!
