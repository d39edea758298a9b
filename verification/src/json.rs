//! The persisted snapshot format: a JSON array of provider-native records,
//! `{"macPrefix": s, "vendorName": s, "private": b, "blockType": s}` each,
//! and the small datasource-config object `{"url": s, "name": s}`.  The
//! encoder and the parser are written here directly over characters, with
//! the encoding pinned down exactly; reloading what was saved is proved to
//! give back the same records.
//!
//! The parser accepts whitespace between tokens and the two escapes `\"` and
//! `\\` inside strings; it expects each record's fields in the adapter's
//! canonical order.

use vstd::prelude::*;
use crate::record::{RecordModel, VendorRecord, models_of, record_wf};
use crate::prefix::valid_prefix;
use crate::text::{chars_to_string, to_chars};

verus! {

/// How one character is written inside a JSON string: quote and backslash
/// get a backslash escape, everything else stands as itself.
pub open spec fn escaped_char(c: char) -> Seq<char> {
    if c == '"' {
        seq!['\\', '"']
    } else if c == '\\' {
        seq!['\\', '\\']
    } else {
        seq![c]
    }
}

/// The escaped body of a JSON string.
pub open spec fn escaped(s: Seq<char>) -> Seq<char>
    decreases s.len(),
{
    if s.len() == 0 {
        Seq::empty()
    } else {
        escaped_char(s[0]) + escaped(s.drop_first())
    }
}

/// A JSON string: the escaped body between double quotes.
pub open spec fn quoted(s: Seq<char>) -> Seq<char> {
    seq!['"'] + escaped(s) + seq!['"']
}

/// A JSON boolean.
pub open spec fn bool_json(b: bool) -> Seq<char> {
    if b {
        "true"@
    } else {
        "false"@
    }
}

/// One record as a provider-native JSON object.
pub open spec fn record_json(m: RecordModel) -> Seq<char> {
    "{"@ + "\"macPrefix\""@ + ":"@ + quoted(m.prefix) + ","@ + "\"vendorName\""@ + ":"@ + quoted(
        m.vendor_name,
    ) + ","@ + "\"private\""@ + ":"@ + bool_json(m.is_private) + ","@ + "\"blockType\""@ + ":"@
        + quoted(m.block_type) + "}"@
}

/// The comma-joined objects after the first one.
pub open spec fn join_rest(ms: Seq<RecordModel>) -> Seq<char>
    decreases ms.len(),
{
    if ms.len() == 0 {
        Seq::empty()
    } else {
        ","@ + record_json(ms[0]) + join_rest(ms.drop_first())
    }
}

/// The comma-joined objects of all records.
pub open spec fn items_json(ms: Seq<RecordModel>) -> Seq<char> {
    if ms.len() == 0 {
        Seq::empty()
    } else {
        record_json(ms[0]) + join_rest(ms.drop_first())
    }
}

/// A whole snapshot: the records as a JSON array.
pub open spec fn records_json(ms: Seq<RecordModel>) -> Seq<char> {
    "["@ + items_json(ms) + "]"@
}

/// The datasource-config object.
pub open spec fn config_json(url: Seq<char>, name: Seq<char>) -> Seq<char> {
    "{"@ + "\"url\""@ + ":"@ + quoted(url) + ","@ + "\"name\""@ + ":"@ + quoted(name) + "}"@
}

/// Appends the characters of a string slice.
fn push_str_chars(out: &mut Vec<char>, s: &str)
    ensures
        final(out)@ == old(out)@ + s@,
{
    let n: usize = s.unicode_len();
    let mut i: usize = 0;
    while i < n
        invariant
            n == s@.len(),
            0 <= i <= n,
            out@ == old(out)@ + s@.subrange(0, i as int),
        decreases n - i,
    {
        out.push(s.get_char(i));
        proof {
            assert(out@ =~= old(out)@ + s@.subrange(0, i as int + 1));
        }
        i = i + 1;
    }
    proof {
        assert(old(out)@ + s@.subrange(0, n as int) =~= old(out)@ + s@);
    }
}

/// `escaped` grows from the back one character at a time.
proof fn lemma_escaped_snoc(s: Seq<char>, c: char)
    ensures
        escaped(s.push(c)) == escaped(s) + escaped_char(c),
    decreases s.len(),
{
    let ext = s.push(c);
    if s.len() == 0 {
        assert(ext.drop_first() =~= Seq::<char>::empty());
        assert(escaped(Seq::<char>::empty()) == Seq::<char>::empty());
        assert(ext[0] == c);
        assert(escaped(ext) == escaped_char(ext[0]) + escaped(ext.drop_first()));
        assert(escaped(ext) =~= escaped(s) + escaped_char(c));
    } else {
        assert(ext.drop_first() =~= s.drop_first().push(c));
        lemma_escaped_snoc(s.drop_first(), c);
        assert(ext[0] == s[0]);
        assert(escaped(ext) == escaped_char(ext[0]) + escaped(ext.drop_first()));
        assert(escaped(s) == escaped_char(s[0]) + escaped(s.drop_first()));
        assert(escaped(ext) =~= escaped(s) + escaped_char(c));
    }
}

/// Appends a JSON string: the escaped content between double quotes.
fn push_quoted(out: &mut Vec<char>, s: &str)
    ensures
        final(out)@ == old(out)@ + quoted(s@),
{
    proof {
        reveal_strlit("\"");
        reveal_strlit("\\");
    }
    push_str_chars(out, "\"");
    let n: usize = s.unicode_len();
    let mut i: usize = 0;
    while i < n
        invariant
            n == s@.len(),
            0 <= i <= n,
            out@ == old(out)@ + seq!['"'] + escaped(s@.subrange(0, i as int)),
        decreases n - i,
    {
        let c = s.get_char(i);
        if c == '"' {
            out.push('\\');
            out.push('"');
        } else if c == '\\' {
            out.push('\\');
            out.push('\\');
        } else {
            out.push(c);
        }
        proof {
            let pre = s@.subrange(0, i as int);
            assert(s@.subrange(0, i as int + 1) =~= pre.push(c));
            lemma_escaped_snoc(pre, c);
            assert(out@ =~= old(out)@ + seq!['"'] + escaped(s@.subrange(0, i as int + 1)));
        }
        i = i + 1;
    }
    proof {
        assert(s@.subrange(0, n as int) =~= s@);
    }
    push_str_chars(out, "\"");
    proof {
        assert(final(out)@ =~= old(out)@ + quoted(s@));
    }
}

/// Appends one record as its provider-native JSON object.
fn push_record_json(out: &mut Vec<char>, rec: &VendorRecord)
    ensures
        final(out)@ == old(out)@ + record_json(rec@),
{
    push_str_chars(out, "{");
    push_str_chars(out, "\"macPrefix\"");
    push_str_chars(out, ":");
    let p = rec.prefix();
    push_quoted(out, p.as_str());
    push_str_chars(out, ",");
    push_str_chars(out, "\"vendorName\"");
    push_str_chars(out, ":");
    let v = rec.vendor();
    push_quoted(out, v.as_str());
    push_str_chars(out, ",");
    push_str_chars(out, "\"private\"");
    push_str_chars(out, ":");
    if rec.is_private() {
        push_str_chars(out, "true");
    } else {
        push_str_chars(out, "false");
    }
    push_str_chars(out, ",");
    push_str_chars(out, "\"blockType\"");
    push_str_chars(out, ":");
    let b = rec.block_type();
    push_quoted(out, b.as_str());
    push_str_chars(out, "}");
    proof {
        assert(final(out)@ =~= old(out)@ + record_json(rec@));
    }
}

/// `items_json` grows from the back one record at a time.
proof fn lemma_join_rest_snoc(ms: Seq<RecordModel>, m: RecordModel)
    ensures
        join_rest(ms.push(m)) == join_rest(ms) + ","@ + record_json(m),
    decreases ms.len(),
{
    let ext = ms.push(m);
    if ms.len() == 0 {
        assert(ext.drop_first() =~= Seq::<RecordModel>::empty());
        assert(join_rest(Seq::<RecordModel>::empty()) == Seq::<char>::empty());
        assert(ext[0] == m);
        assert(join_rest(ext) == ","@ + record_json(ext[0]) + join_rest(ext.drop_first()));
        assert(join_rest(ext) =~= join_rest(ms) + ","@ + record_json(m));
    } else {
        assert(ext.drop_first() =~= ms.drop_first().push(m));
        lemma_join_rest_snoc(ms.drop_first(), m);
        assert(ext[0] == ms[0]);
        assert(join_rest(ext) == ","@ + record_json(ext[0]) + join_rest(ext.drop_first()));
        assert(join_rest(ms) == ","@ + record_json(ms[0]) + join_rest(ms.drop_first()));
        assert(join_rest(ext) =~= join_rest(ms) + ","@ + record_json(m));
    }
}

/// `items_json` grows from the back one record at a time.
proof fn lemma_items_snoc(ms: Seq<RecordModel>, m: RecordModel)
    ensures
        ms.len() == 0 ==> items_json(ms.push(m)) == record_json(m),
        ms.len() > 0 ==> items_json(ms.push(m)) == items_json(ms) + ","@ + record_json(m),
{
    let ext = ms.push(m);
    if ms.len() == 0 {
        assert(ext.drop_first() =~= Seq::<RecordModel>::empty());
        assert(items_json(ext) =~= record_json(m));
    } else {
        assert(ext.drop_first() =~= ms.drop_first().push(m));
        lemma_join_rest_snoc(ms.drop_first(), m);
        assert(items_json(ext) =~= items_json(ms) + ","@ + record_json(m));
    }
}

/// Encodes records as the snapshot's JSON array, exactly as `records_json`
/// spells it; parsing the result gives the same records back.
pub fn records_to_json(records: &Vec<VendorRecord>) -> (r: String)
    ensures
        r@ == records_json(models_of(records@)),
        parse_records(r@) == Some(models_of(records@)),
{
    let mut out: Vec<char> = Vec::new();
    push_str_chars(&mut out, "[");
    let n: usize = records.len();
    let mut i: usize = 0;
    while i < n
        invariant
            n == records@.len(),
            0 <= i <= n,
            out@ == "["@ + items_json(models_of(records@.subrange(0, i as int))),
            forall|j: int| 0 <= j < i ==> record_wf(#[trigger] models_of(records@)[j]),
        decreases n - i,
    {
        if i > 0 {
            push_str_chars(&mut out, ",");
        }
        let rec = &records[i];
        push_record_json(&mut out, rec);
        proof {
            use_type_invariant(rec);
            assert(record_wf(models_of(records@)[i as int]));
            let pre = models_of(records@.subrange(0, i as int));
            let ext = models_of(records@.subrange(0, i as int + 1));
            assert(ext =~= pre.push(records@[i as int]@));
            lemma_items_snoc(pre, records@[i as int]@);
            assert(out@ =~= "["@ + items_json(ext));
        }
        i = i + 1;
    }
    push_str_chars(&mut out, "]");
    proof {
        assert(records@.subrange(0, n as int) =~= records@);
        assert(out@ =~= records_json(models_of(records@)));
        lemma_snapshot_roundtrip(models_of(records@));
    }
    chars_to_string(&out)
}

/// Encodes a datasource config, exactly as `config_json` spells it; parsing
/// the result gives the same url and name back.
pub fn config_to_json(url: &str, name: &str) -> (r: String)
    ensures
        r@ == config_json(url@, name@),
        parse_config(r@) == Some((url@, name@)),
{
    proof {
        lemma_config_roundtrip(url@, name@);
    }
    let mut out: Vec<char> = Vec::new();
    push_str_chars(&mut out, "{");
    push_str_chars(&mut out, "\"url\"");
    push_str_chars(&mut out, ":");
    push_quoted(&mut out, url);
    push_str_chars(&mut out, ",");
    push_str_chars(&mut out, "\"name\"");
    push_str_chars(&mut out, ":");
    push_quoted(&mut out, name);
    push_str_chars(&mut out, "}");
    proof {
        assert(out@ =~= config_json(url@, name@));
    }
    chars_to_string(&out)
}


/// JSON insignificant whitespace.
pub open spec fn is_ws(c: char) -> bool {
    c == ' ' || c == '\n' || c == '\r' || c == '\t'
}

/// The input from position `i` on.
pub open spec fn suffix_from(s: Seq<char>, i: int) -> Seq<char> {
    s.subrange(i, s.len() as int)
}

/// The input with its leading whitespace dropped.
pub open spec fn skip_ws(s: Seq<char>) -> Seq<char>
    decreases s.len(),
{
    if s.len() > 0 && is_ws(s[0]) {
        skip_ws(s.drop_first())
    } else {
        s
    }
}

/// Consumes an exact literal, yielding the remainder.
pub open spec fn expect_lit(s: Seq<char>, lit: Seq<char>) -> Option<Seq<char>> {
    if lit.is_prefix_of(s) {
        Some(s.skip(lit.len() as int))
    } else {
        None
    }
}

/// Consumes leading whitespace, then an exact literal.
pub open spec fn expect_tok(s: Seq<char>, lit: Seq<char>) -> Option<Seq<char>> {
    expect_lit(skip_ws(s), lit)
}

/// The body of a JSON string after its opening quote: characters up to the
/// closing quote, undoing the two escapes `\"` and `\\`.  Any other escape
/// is rejected.
pub open spec fn parse_string_body(s: Seq<char>) -> Option<(Seq<char>, Seq<char>)>
    decreases s.len(),
{
    if s.len() == 0 {
        None
    } else if s[0] == '"' {
        Some((Seq::empty(), s.drop_first()))
    } else if s[0] == '\\' {
        if s.len() >= 2 && (s[1] == '"' || s[1] == '\\') {
            match parse_string_body(s.skip(2)) {
                Some(p) => Some((seq![s[1]] + p.0, p.1)),
                None => None,
            }
        } else {
            None
        }
    } else {
        match parse_string_body(s.drop_first()) {
            Some(p) => Some((seq![s[0]] + p.0, p.1)),
            None => None,
        }
    }
}

/// A JSON string token.
pub open spec fn parse_quoted(s: Seq<char>) -> Option<(Seq<char>, Seq<char>)> {
    match expect_tok(s, "\""@) {
        Some(r) => parse_string_body(r),
        None => None,
    }
}

/// A JSON boolean token.
pub open spec fn parse_bool(s: Seq<char>) -> Option<(bool, Seq<char>)> {
    match expect_tok(s, "true"@) {
        Some(r) => Some((true, r)),
        None => match expect_tok(s, "false"@) {
            Some(r) => Some((false, r)),
            None => None,
        },
    }
}

/// A leading punctuation token, a quoted key, a colon, and a string value.
pub open spec fn parse_field_str(s: Seq<char>, lead: Seq<char>, key: Seq<char>) -> Option<
    (Seq<char>, Seq<char>),
> {
    match expect_tok(s, lead) {
        Some(r1) => match expect_tok(r1, key) {
            Some(r2) => match expect_tok(r2, ":"@) {
                Some(r3) => parse_quoted(r3),
                None => None,
            },
            None => None,
        },
        None => None,
    }
}

/// A leading punctuation token, a quoted key, a colon, and a boolean value.
pub open spec fn parse_field_bool(s: Seq<char>, lead: Seq<char>, key: Seq<char>) -> Option<
    (bool, Seq<char>),
> {
    match expect_tok(s, lead) {
        Some(r1) => match expect_tok(r1, key) {
            Some(r2) => match expect_tok(r2, ":"@) {
                Some(r3) => parse_bool(r3),
                None => None,
            },
            None => None,
        },
        None => None,
    }
}

/// One provider-native record object, fields in canonical order.  A record
/// whose prefix is not well-formed is rejected with the rest of the payload.
pub open spec fn parse_record(s: Seq<char>) -> Option<(RecordModel, Seq<char>)> {
    match parse_field_str(s, "{"@, "\"macPrefix\""@) {
        Some((p, r1)) => match parse_field_str(r1, ","@, "\"vendorName\""@) {
            Some((vn, r2)) => match parse_field_bool(r2, ","@, "\"private\""@) {
                Some((pv, r3)) => match parse_field_str(r3, ","@, "\"blockType\""@) {
                    Some((bt, r4)) => match expect_tok(r4, "}"@) {
                        Some(r5) => if valid_prefix(p) {
                            Some(
                                (
                                    RecordModel {
                                        prefix: p,
                                        vendor_name: vn,
                                        is_private: pv,
                                        block_type: bt,
                                    },
                                    r5,
                                ),
                            )
                        } else {
                            None
                        },
                        None => None,
                    },
                    None => None,
                },
                None => None,
            },
            None => None,
        },
        None => None,
    }
}

/// One or more record objects separated by commas, up to and including the
/// closing bracket of the array.
pub open spec fn parse_items(s: Seq<char>) -> Option<(Seq<RecordModel>, Seq<char>)>
    decreases s.len(),
{
    match parse_record(s) {
        Some((m, r)) => {
            let r1 = skip_ws(r);
            if r1.len() > 0 && r1[0] == ',' {
                if r1.drop_first().len() < s.len() {
                    match parse_items(r1.drop_first()) {
                        Some((ms, r2)) => Some((seq![m] + ms, r2)),
                        None => None,
                    }
                } else {
                    None
                }
            } else if r1.len() > 0 && r1[0] == ']' {
                Some((seq![m], r1.drop_first()))
            } else {
                None
            }
        },
        None => None,
    }
}

/// A whole snapshot: a JSON array of record objects with nothing but
/// whitespace after it.
pub open spec fn parse_records(s: Seq<char>) -> Option<Seq<RecordModel>> {
    match expect_tok(s, "["@) {
        Some(r) => {
            let r1 = skip_ws(r);
            if r1.len() > 0 && r1[0] == ']' {
                if skip_ws(r1.drop_first()).len() == 0 {
                    Some(Seq::empty())
                } else {
                    None
                }
            } else {
                match parse_items(r) {
                    Some((ms, r2)) => if skip_ws(r2).len() == 0 {
                        Some(ms)
                    } else {
                        None
                    },
                    None => None,
                }
            }
        },
        None => None,
    }
}

/// The datasource-config object with nothing but whitespace after it.
pub open spec fn parse_config(s: Seq<char>) -> Option<(Seq<char>, Seq<char>)> {
    match parse_field_str(s, "{"@, "\"url\""@) {
        Some((url, r1)) => match parse_field_str(r1, ","@, "\"name\""@) {
            Some((name, r2)) => match expect_tok(r2, "}"@) {
                Some(r3) => if skip_ws(r3).len() == 0 {
                    Some((url, name))
                } else {
                    None
                },
                None => None,
            },
            None => None,
        },
        None => None,
    }
}

/// Advances past whitespace.
fn skip_ws_at(v: &Vec<char>, i: usize) -> (j: usize)
    requires
        i <= v@.len(),
    ensures
        i <= j <= v@.len(),
        suffix_from(v@, j as int) == skip_ws(suffix_from(v@, i as int)),
{
    let mut j = i;
    while j < v.len() && (v[j] == ' ' || v[j] == '\n' || v[j] == '\r' || v[j] == '\t')
        invariant
            i <= j <= v@.len(),
            skip_ws(suffix_from(v@, i as int)) == skip_ws(suffix_from(v@, j as int)),
        decreases v@.len() - j,
    {
        proof {
            let t = suffix_from(v@, j as int);
            assert(t[0] == v@[j as int]);
            assert(t.drop_first() =~= suffix_from(v@, j as int + 1));
        }
        j = j + 1;
    }
    proof {
        let t = suffix_from(v@, j as int);
        if j < v@.len() {
            assert(t[0] == v@[j as int]);
        }
        assert(skip_ws(t) == t);
    }
    j
}

/// Consumes whitespace and then the exact literal `lit`.
fn match_tok_at(v: &Vec<char>, i: usize, lit: &str) -> (r: Option<usize>)
    requires
        i <= v@.len(),
    ensures
        match r {
            Some(j) => i <= j <= v@.len() && expect_tok(suffix_from(v@, i as int), lit@) == Some(
                suffix_from(v@, j as int),
            ),
            None => expect_tok(suffix_from(v@, i as int), lit@) is None,
        },
{
    let j = skip_ws_at(v, i);
    let n = lit.unicode_len();
    let total: usize = v.len();
    if total - j < n {
        proof {
            let t = suffix_from(v@, j as int);
            assert(!lit@.is_prefix_of(t));
        }
        return None;
    }
    let mut k: usize = 0;
    while k < n
        invariant
            i <= j,
            n == lit@.len(),
            total == v@.len(),
            j + n <= total,
            0 <= k <= n,
            suffix_from(v@, j as int) == skip_ws(suffix_from(v@, i as int)),
            forall|t: int| 0 <= t < k ==> v@[j + t] == lit@[t],
        decreases n - k,
    {
        if v[j + k] != lit.get_char(k) {
            proof {
                let t = suffix_from(v@, j as int);
                assert(t[k as int] == v@[j + k]);
                if lit@.is_prefix_of(t) {
                    assert(lit@[k as int] == t.subrange(0, lit@.len() as int)[k as int]);
                }
            }
            return None;
        }
        k = k + 1;
    }
    proof {
        let t = suffix_from(v@, j as int);
        assert(lit@ =~= t.subrange(0, lit@.len() as int));
        assert(lit@.is_prefix_of(t));
        assert(t.skip(n as int) =~= suffix_from(v@, j + n as int));
    }
    Some(j + n)
}

/// The body of a string token after its opening quote.
fn parse_string_body_at(v: &Vec<char>, i: usize) -> (r: Option<(Vec<char>, usize)>)
    requires
        i <= v@.len(),
    ensures
        match r {
            Some(p) => p.1 <= v@.len() && parse_string_body(suffix_from(v@, i as int)) == Some(
                (p.0@, suffix_from(v@, p.1 as int)),
            ),
            None => parse_string_body(suffix_from(v@, i as int)) is None,
        },
    decreases v@.len() - i,
{
    if i == v.len() {
        proof {
            assert(suffix_from(v@, i as int).len() == 0);
        }
        return None;
    }
    proof {
        let t = suffix_from(v@, i as int);
        assert(t[0] == v@[i as int]);
        assert(t.drop_first() =~= suffix_from(v@, i as int + 1));
    }
    let c = v[i];
    if c == '"' {
        let out: Vec<char> = Vec::new();
        proof {
            assert(out@ =~= Seq::<char>::empty());
        }
        return Some((out, i + 1));
    }
    if c == '\\' {
        if i + 1 < v.len() && (v[i + 1] == '"' || v[i + 1] == '\\') {
            proof {
                let t = suffix_from(v@, i as int);
                assert(t[1] == v@[i as int + 1]);
                assert(t.skip(2) =~= suffix_from(v@, i as int + 2));
            }
            let e = v[i + 1];
            match parse_string_body_at(v, i + 2) {
                Some((mut cs, j)) => {
                    let ghost prev = cs@;
                    cs.insert(0, e);
                    proof {
                        assert(cs@ =~= seq![e] + prev);
                    }
                    return Some((cs, j));
                },
                None => {
                    return None;
                },
            }
        } else {
            return None;
        }
    }
    match parse_string_body_at(v, i + 1) {
        Some((mut cs, j)) => {
            let ghost prev = cs@;
            cs.insert(0, c);
            proof {
                assert(cs@ =~= seq![c] + prev);
            }
            Some((cs, j))
        },
        None => None,
    }
}

/// A whole string token.
fn parse_quoted_at(v: &Vec<char>, i: usize) -> (r: Option<(String, usize)>)
    requires
        i <= v@.len(),
    ensures
        match r {
            Some(p) => p.1 <= v@.len() && parse_quoted(suffix_from(v@, i as int)) == Some(
                (p.0@, suffix_from(v@, p.1 as int)),
            ),
            None => parse_quoted(suffix_from(v@, i as int)) is None,
        },
{
    match match_tok_at(v, i, "\"") {
        Some(j) => match parse_string_body_at(v, j) {
            Some((cs, j2)) => Some((chars_to_string(&cs), j2)),
            None => None,
        },
        None => None,
    }
}

/// A boolean token.
fn parse_bool_at(v: &Vec<char>, i: usize) -> (r: Option<(bool, usize)>)
    requires
        i <= v@.len(),
    ensures
        match r {
            Some(p) => p.1 <= v@.len() && parse_bool(suffix_from(v@, i as int)) == Some(
                (p.0, suffix_from(v@, p.1 as int)),
            ),
            None => parse_bool(suffix_from(v@, i as int)) is None,
        },
{
    match match_tok_at(v, i, "true") {
        Some(j) => Some((true, j)),
        None => match match_tok_at(v, i, "false") {
            Some(j) => Some((false, j)),
            None => None,
        },
    }
}

/// One string-valued field with its leading punctuation and key.
fn parse_field_str_at(v: &Vec<char>, i: usize, lead: &str, key: &str) -> (r: Option<
    (String, usize),
>)
    requires
        i <= v@.len(),
    ensures
        match r {
            Some(p) => p.1 <= v@.len() && parse_field_str(suffix_from(v@, i as int), lead@, key@)
                == Some((p.0@, suffix_from(v@, p.1 as int))),
            None => parse_field_str(suffix_from(v@, i as int), lead@, key@) is None,
        },
{
    match match_tok_at(v, i, lead) {
        Some(j1) => match match_tok_at(v, j1, key) {
            Some(j2) => match match_tok_at(v, j2, ":") {
                Some(j3) => parse_quoted_at(v, j3),
                None => None,
            },
            None => None,
        },
        None => None,
    }
}

/// One boolean-valued field with its leading punctuation and key.
fn parse_field_bool_at(v: &Vec<char>, i: usize, lead: &str, key: &str) -> (r: Option<
    (bool, usize),
>)
    requires
        i <= v@.len(),
    ensures
        match r {
            Some(p) => p.1 <= v@.len() && parse_field_bool(suffix_from(v@, i as int), lead@, key@)
                == Some((p.0, suffix_from(v@, p.1 as int))),
            None => parse_field_bool(suffix_from(v@, i as int), lead@, key@) is None,
        },
{
    match match_tok_at(v, i, lead) {
        Some(j1) => match match_tok_at(v, j1, key) {
            Some(j2) => match match_tok_at(v, j2, ":") {
                Some(j3) => parse_bool_at(v, j3),
                None => None,
            },
            None => None,
        },
        None => None,
    }
}

/// One record object.
fn parse_record_at(v: &Vec<char>, i: usize) -> (r: Option<(VendorRecord, usize)>)
    requires
        i <= v@.len(),
    ensures
        match r {
            Some(p) => p.1 <= v@.len() && parse_record(suffix_from(v@, i as int)) == Some(
                (p.0@, suffix_from(v@, p.1 as int)),
            ),
            None => parse_record(suffix_from(v@, i as int)) is None,
        },
{
    match parse_field_str_at(v, i, "{", "\"macPrefix\"") {
        Some((p, j1)) => match parse_field_str_at(v, j1, ",", "\"vendorName\"") {
            Some((vn, j2)) => match parse_field_bool_at(v, j2, ",", "\"private\"") {
                Some((pv, j3)) => match parse_field_str_at(v, j3, ",", "\"blockType\"") {
                    Some((bt, j4)) => match match_tok_at(v, j4, "}") {
                        Some(j5) => match VendorRecord::new(p, vn, pv, bt) {
                            Ok(rec) => Some((rec, j5)),
                            Err(_) => None,
                        },
                        None => None,
                    },
                    None => None,
                },
                None => None,
            },
            None => None,
        },
        None => None,
    }
}

/// The record objects of a non-empty array, up to its closing bracket.
fn parse_items_at(v: &Vec<char>, i: usize) -> (r: Option<(Vec<VendorRecord>, usize)>)
    requires
        i <= v@.len(),
    ensures
        match r {
            Some(p) => p.1 <= v@.len() && parse_items(suffix_from(v@, i as int)) == Some(
                (models_of(p.0@), suffix_from(v@, p.1 as int)),
            ),
            None => parse_items(suffix_from(v@, i as int)) is None,
        },
    decreases v@.len() - i,
{
    match parse_record_at(v, i) {
        Some((rec, j)) => {
            let j1 = skip_ws_at(v, j);
            proof {
                let r1 = suffix_from(v@, j1 as int);
                if j1 < v@.len() {
                    assert(r1[0] == v@[j1 as int]);
                    assert(r1.drop_first() =~= suffix_from(v@, j1 as int + 1));
                }
            }
            if j1 < v.len() && v[j1] == ',' {
                if j1 + 1 > i {
                    match parse_items_at(v, j1 + 1) {
                        Some((mut rs, j2)) => {
                            let ghost prev = rs@;
                            rs.insert(0, rec);
                            proof {
                                assert(rs@ =~= seq![rec] + prev);
                                assert(models_of(rs@) =~= seq![rec@] + models_of(prev));
                            }
                            Some((rs, j2))
                        },
                        None => None,
                    }
                } else {
                    None
                }
            } else if j1 < v.len() && v[j1] == ']' {
                let mut rs: Vec<VendorRecord> = Vec::new();
                rs.push(rec);
                proof {
                    assert(models_of(rs@) =~= seq![rec@]);
                }
                Some((rs, j1 + 1))
            } else {
                None
            }
        },
        None => None,
    }
}

/// Parses a whole snapshot.  Succeeds exactly where the grammar
/// `parse_records` does, giving records with those models in that order.
pub fn parse_records_json(data: &str) -> (r: Option<Vec<VendorRecord>>)
    ensures
        match r {
            Some(rs) => parse_records(data@) == Some(models_of(rs@)),
            None => parse_records(data@) is None,
        },
{
    let v = to_chars(data);
    proof {
        assert(suffix_from(v@, 0) =~= data@);
    }
    match match_tok_at(&v, 0, "[") {
        Some(j) => {
            let j1 = skip_ws_at(&v, j);
            proof {
                let r1 = suffix_from(v@, j1 as int);
                if j1 < v@.len() {
                    assert(r1[0] == v@[j1 as int]);
                    assert(r1.drop_first() =~= suffix_from(v@, j1 as int + 1));
                }
            }
            if j1 < v.len() && v[j1] == ']' {
                let j2 = skip_ws_at(&v, j1 + 1);
                if j2 == v.len() {
                    let rs: Vec<VendorRecord> = Vec::new();
                    proof {
                        assert(models_of(rs@) =~= Seq::<RecordModel>::empty());
                    }
                    Some(rs)
                } else {
                    proof {
                        assert(suffix_from(v@, j2 as int).len() > 0);
                    }
                    None
                }
            } else {
                match parse_items_at(&v, j) {
                    Some((rs, j2)) => {
                        let j3 = skip_ws_at(&v, j2);
                        if j3 == v.len() {
                            Some(rs)
                        } else {
                            proof {
                                assert(suffix_from(v@, j3 as int).len() > 0);
                            }
                            None
                        }
                    },
                    None => None,
                }
            }
        },
        None => None,
    }
}

/// Parses a datasource-config object into its url and name.  Succeeds
/// exactly where the grammar `parse_config` does.
pub fn parse_config_json(data: &str) -> (r: Option<(String, String)>)
    ensures
        match r {
            Some(p) => parse_config(data@) == Some((p.0@, p.1@)),
            None => parse_config(data@) is None,
        },
{
    let v = to_chars(data);
    proof {
        assert(suffix_from(v@, 0) =~= data@);
    }
    match parse_field_str_at(&v, 0, "{", "\"url\"") {
        Some((url, j1)) => match parse_field_str_at(&v, j1, ",", "\"name\"") {
            Some((name, j2)) => match match_tok_at(&v, j2, "}") {
                Some(j3) => {
                    let j4 = skip_ws_at(&v, j3);
                    if j4 == v.len() {
                        Some((url, name))
                    } else {
                        proof {
                            assert(suffix_from(v@, j4 as int).len() > 0);
                        }
                        None
                    }
                },
                None => None,
            },
            None => None,
        },
        None => None,
    }
}


/// A sequence that does not start with whitespace keeps itself.
proof fn lemma_skip_ws_nows(s: Seq<char>)
    requires
        s.len() == 0 || !is_ws(s[0]),
    ensures
        skip_ws(s) == s,
{
}

/// Consuming a literal off the front of itself-plus-remainder yields the
/// remainder.
proof fn lemma_expect_lit(lit: Seq<char>, rest: Seq<char>)
    ensures
        expect_lit(lit + rest, lit) == Some(rest),
{
    let s = lit + rest;
    assert(lit =~= s.subrange(0, lit.len() as int));
    assert(lit.is_prefix_of(s));
    assert(s.skip(lit.len() as int) =~= rest);
}

/// The same, through leading-whitespace skipping, for a token that does not
/// start with whitespace.
proof fn lemma_expect_tok(lit: Seq<char>, rest: Seq<char>)
    requires
        lit.len() > 0,
        !is_ws(lit[0]),
    ensures
        expect_tok(lit + rest, lit) == Some(rest),
{
    let s = lit + rest;
    assert(s[0] == lit[0]);
    lemma_skip_ws_nows(s);
    lemma_expect_lit(lit, rest);
}

/// Parsing an escaped string body gives back the characters that were
/// escaped, and the remainder after the closing quote.
proof fn lemma_string_body_inv(x: Seq<char>, rest: Seq<char>)
    ensures
        parse_string_body(escaped(x) + seq!['"'] + rest) == Some((x, rest)),
    decreases x.len(),
{
    let s = escaped(x) + seq!['"'] + rest;
    if x.len() == 0 {
        assert(escaped(x) == Seq::<char>::empty());
        assert(s =~= seq!['"'] + rest);
        assert(s[0] == '"');
        assert(s.drop_first() =~= rest);
        assert(x =~= Seq::<char>::empty());
    } else {
        let c = x[0];
        assert(escaped(x) == escaped_char(c) + escaped(x.drop_first()));
        lemma_string_body_inv(x.drop_first(), rest);
        let s2 = escaped(x.drop_first()) + seq!['"'] + rest;
        if c == '"' {
            assert(s =~= seq!['\\', '"'] + s2);
            assert(s[0] == '\\' && s[1] == '"');
            assert(s.skip(2) =~= s2);
            assert(seq![s[1]] + x.drop_first() =~= x);
        } else if c == '\\' {
            assert(s =~= seq!['\\', '\\'] + s2);
            assert(s[0] == '\\' && s[1] == '\\');
            assert(s.skip(2) =~= s2);
            assert(seq![s[1]] + x.drop_first() =~= x);
        } else {
            assert(s =~= seq![c] + s2);
            assert(s[0] == c);
            assert(s.drop_first() =~= s2);
            assert(seq![s[0]] + x.drop_first() =~= x);
        }
    }
}

/// Parsing a quoted string gives back what was quoted.
proof fn lemma_quoted_inv(x: Seq<char>, rest: Seq<char>)
    ensures
        parse_quoted(quoted(x) + rest) == Some((x, rest)),
{
    reveal_strlit("\"");
    let body = escaped(x) + seq!['"'] + rest;
    let s = quoted(x) + rest;
    assert("\""@ =~= seq!['"']);
    assert(s =~= "\""@ + body);
    assert(!is_ws('"'));
    lemma_expect_tok("\""@, body);
    lemma_string_body_inv(x, rest);
}

/// Parsing a written boolean gives back the boolean.
proof fn lemma_bool_inv(b: bool, rest: Seq<char>)
    ensures
        parse_bool(bool_json(b) + rest) == Some((b, rest)),
{
    reveal_strlit("true");
    reveal_strlit("false");
    let s = bool_json(b) + rest;
    if b {
        assert(!is_ws("true"@[0]));
        lemma_expect_tok("true"@, rest);
    } else {
        assert(s[0] == 'f');
        lemma_skip_ws_nows(s);
        if "true"@.is_prefix_of(s) {
            assert("true"@[0] == s.subrange(0, 4)[0]);
            assert(false);
        }
        assert(!is_ws("false"@[0]));
        lemma_expect_tok("false"@, rest);
    }
}

/// Parsing a written record object gives back the record.
#[verifier::rlimit(100)]
#[verifier::spinoff_prover]
proof fn lemma_record_inv(m: RecordModel, rest: Seq<char>)
    requires
        record_wf(m),
    ensures
        parse_record(record_json(m) + rest) == Some((m, rest)),
{
    reveal_strlit("{");
    reveal_strlit("}");
    reveal_strlit(":");
    reveal_strlit(",");
    reveal_strlit("\"macPrefix\"");
    reveal_strlit("\"vendorName\"");
    reveal_strlit("\"private\"");
    reveal_strlit("\"blockType\"");
    let a16 = "}"@ + rest;
    let a15 = quoted(m.block_type) + a16;
    let a14 = ":"@ + a15;
    let a13 = "\"blockType\""@ + a14;
    let a12 = ","@ + a13;
    let a11 = bool_json(m.is_private) + a12;
    let a10 = ":"@ + a11;
    let a9 = "\"private\""@ + a10;
    let a8 = ","@ + a9;
    let a7 = quoted(m.vendor_name) + a8;
    let a6 = ":"@ + a7;
    let a5 = "\"vendorName\""@ + a6;
    let a4 = ","@ + a5;
    let a3 = quoted(m.prefix) + a4;
    let a2 = ":"@ + a3;
    let a1 = "\"macPrefix\""@ + a2;
    let s = record_json(m) + rest;
    assert(s =~= "{"@ + a1);
    lemma_expect_tok("{"@, a1);
    lemma_expect_tok("\"macPrefix\""@, a2);
    lemma_expect_tok(":"@, a3);
    lemma_quoted_inv(m.prefix, a4);
    assert(parse_field_str(s, "{"@, "\"macPrefix\""@) == Some((m.prefix, a4)));
    lemma_expect_tok(","@, a5);
    lemma_expect_tok("\"vendorName\""@, a6);
    lemma_expect_tok(":"@, a7);
    lemma_quoted_inv(m.vendor_name, a8);
    assert(parse_field_str(a4, ","@, "\"vendorName\""@) == Some((m.vendor_name, a8)));
    lemma_expect_tok(","@, a9);
    lemma_expect_tok("\"private\""@, a10);
    lemma_expect_tok(":"@, a11);
    lemma_bool_inv(m.is_private, a12);
    assert(parse_field_bool(a8, ","@, "\"private\""@) == Some((m.is_private, a12)));
    lemma_expect_tok(","@, a13);
    lemma_expect_tok("\"blockType\""@, a14);
    lemma_expect_tok(":"@, a15);
    lemma_quoted_inv(m.block_type, a16);
    assert(parse_field_str(a12, ","@, "\"blockType\""@) == Some((m.block_type, a16)));
    lemma_expect_tok("}"@, rest);
    assert(m == (RecordModel {
        prefix: m.prefix,
        vendor_name: m.vendor_name,
        is_private: m.is_private,
        block_type: m.block_type,
    }));
}

/// Parsing written records up to the array's closing bracket gives back the
/// records.
#[verifier::rlimit(100)]
#[verifier::spinoff_prover]
proof fn lemma_items_inv(ms: Seq<RecordModel>, rest: Seq<char>)
    requires
        ms.len() > 0,
        forall|i: int| 0 <= i < ms.len() ==> record_wf(#[trigger] ms[i]),
    ensures
        parse_items(items_json(ms) + seq![']'] + rest) == Some((ms, rest)),
    decreases ms.len(),
{
    let s = items_json(ms) + seq![']'] + rest;
    let m = ms[0];
    if ms.len() == 1 {
        assert(ms.drop_first() =~= Seq::<RecordModel>::empty());
        assert(join_rest(ms.drop_first()) == Seq::<char>::empty());
        assert(items_json(ms) =~= record_json(m));
        let tail_r = seq![']'] + rest;
        assert(s =~= record_json(m) + tail_r);
        lemma_record_inv(m, tail_r);
        lemma_skip_ws_nows(tail_r);
        assert(tail_r[0] == ']');
        assert(tail_r.drop_first() =~= rest);
        assert(seq![m] =~= ms);
    } else {
        let tail = ms.drop_first();
        assert(join_rest(tail) == ","@ + record_json(tail[0]) + join_rest(tail.drop_first()));
        assert(items_json(tail) == record_json(tail[0]) + join_rest(tail.drop_first()));
        reveal_strlit(",");
        assert(","@ =~= seq![',']);
        let inner = items_json(tail) + seq![']'] + rest;
        let after = seq![','] + inner;
        assert(s =~= record_json(m) + after);
        lemma_record_inv(m, after);
        lemma_skip_ws_nows(after);
        assert(after[0] == ',');
        assert(after.drop_first() =~= inner);
        assert(s.len() == record_json(m).len() + after.len());
        assert forall|i: int| 0 <= i < tail.len() implies record_wf(#[trigger] tail[i]) by {
            assert(tail[i] == ms[i + 1]);
        }
        lemma_items_inv(tail, rest);
        assert(seq![m] + tail =~= ms);
    }
}

/// Reloading a written snapshot gives back the same record sequence: the
/// same prefixes, names, flags and block types, in the same order.
pub proof fn lemma_snapshot_roundtrip(ms: Seq<RecordModel>)
    requires
        forall|i: int| 0 <= i < ms.len() ==> record_wf(#[trigger] ms[i]),
    ensures
        parse_records(records_json(ms)) == Some(ms),
{
    reveal_strlit("[");
    reveal_strlit("]");
    reveal_strlit("{");
    let s = records_json(ms);
    assert(!is_ws("["@[0]));
    if ms.len() == 0 {
        assert(items_json(ms) == Seq::<char>::empty());
        let r = "]"@;
        assert(s =~= "["@ + r);
        lemma_expect_tok("["@, r);
        lemma_skip_ws_nows(r);
        assert(r[0] == ']');
        assert(r.drop_first() =~= Seq::<char>::empty());
        assert(skip_ws(Seq::<char>::empty()).len() == 0);
        assert(ms =~= Seq::<RecordModel>::empty());
    } else {
        assert("]"@ =~= seq![']']);
        let r = items_json(ms) + seq![']'] + Seq::<char>::empty();
        assert(s =~= "["@ + r);
        lemma_expect_tok("["@, r);
        assert(record_json(ms[0])[0] == '{');
        assert(r[0] == '{');
        lemma_skip_ws_nows(r);
        lemma_items_inv(ms, Seq::<char>::empty());
        assert(skip_ws(Seq::<char>::empty()).len() == 0);
    }
}

/// Reloading a written datasource config gives back the same url and name.
pub proof fn lemma_config_roundtrip(url: Seq<char>, name: Seq<char>)
    ensures
        parse_config(config_json(url, name)) == Some((url, name)),
{
    reveal_strlit("{");
    reveal_strlit("}");
    reveal_strlit(":");
    reveal_strlit(",");
    reveal_strlit("\"url\"");
    reveal_strlit("\"name\"");
    let b8 = "}"@ + Seq::<char>::empty();
    let b7 = quoted(name) + b8;
    let b6 = ":"@ + b7;
    let b5 = "\"name\""@ + b6;
    let b4 = ","@ + b5;
    let b3 = quoted(url) + b4;
    let b2 = ":"@ + b3;
    let b1 = "\"url\""@ + b2;
    let s = config_json(url, name);
    assert(s =~= "{"@ + b1);
    lemma_expect_tok("{"@, b1);
    lemma_expect_tok("\"url\""@, b2);
    lemma_expect_tok(":"@, b3);
    lemma_quoted_inv(url, b4);
    assert(parse_field_str(s, "{"@, "\"url\""@) == Some((url, b4)));
    lemma_expect_tok(","@, b5);
    lemma_expect_tok("\"name\""@, b6);
    lemma_expect_tok(":"@, b7);
    lemma_quoted_inv(name, b8);
    assert(parse_field_str(b4, ","@, "\"name\""@) == Some((name, b8)));
    lemma_expect_tok("}"@, Seq::<char>::empty());
    assert(skip_ws(Seq::<char>::empty()).len() == 0);
}

} // verus!
