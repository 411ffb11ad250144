//! Interface translations.
//!
//! The translation document nests four objects deep: type, subtype, term,
//! then language code to translation. A user lists preferred languages in
//! order; for each term the first of them that the term is translated into
//! is chosen.
use vstd::prelude::*;
use crate::json::{
    Json, JsonValue, view_members, lemma_view_members, lemma_view_members_eq, lemma_view_members_push, has_key, lookup,
    members_get, members_contain, lemma_has_first_key, is_first_key, lemma_lookup_at,
};
use crate::responses::{ApiResponse, bad_response, is_bad, STATUS_BAD_REQUEST};
use crate::text::{string_views, lemma_string_views_push, split_on, split_chars, decimal, lemma_split_nonempty, push_decimal, concat3, push_str, str_eq};

verus! {

/// The members of an object, or none for any other value.
pub open spec fn members(j: Json) -> Seq<(Seq<char>, Json)> {
    match j {
        Json::Object(m) => m,
        _ => Seq::empty(),
    }
}

pub open spec fn is_object(j: Json) -> bool {
    j is Object
}

/// Every member value of `j` is an object.
pub open spec fn all_objects(m: Seq<(Seq<char>, Json)>) -> bool {
    forall|i: int| 0 <= i < m.len() ==> is_object(#[trigger] m[i].1)
}

/// A translation document: types, subtypes and terms are all objects.
pub open spec fn is_i18n_doc(j: Json) -> bool {
    &&& is_object(j)
    &&& all_objects(members(j))
    &&& forall|i: int| 0 <= i < members(j).len() ==> all_objects(members(#[trigger] members(j)[i].1))
    &&& forall|i: int, k: int| 0 <= i < members(j).len() && 0 <= k < members(members(j)[i].1).len()
        ==> all_objects(members(#[trigger] members(#[trigger] members(j)[i].1)[k].1))
}

pub open spec fn opt_view(o: Option<String>) -> Option<Seq<char>> {
    match o {
        Some(s) => Some(s@),
        None => None,
    }
}

// ---------------------------------------------------------------- filter

/// Which types and subtypes a request asks for.
pub struct I18nFilter {
    pub type_filter: Option<String>,
    pub subtype_filter: Option<String>,
}

/// The type filter that a filter path names: its first segment, unless empty.
pub open spec fn type_filter_of(items: Seq<Seq<char>>) -> Option<Seq<char>> {
    if items.len() > 0 && items[0].len() > 0 {
        Some(items[0])
    } else {
        None
    }
}

/// The subtype filter that a filter path names: its second segment, when the
/// first and second are both non-empty.
pub open spec fn subtype_filter_of(items: Seq<Seq<char>>) -> Option<Seq<char>> {
    if items.len() > 1 && items[0].len() > 0 && items[1].len() > 0 {
        Some(items[1])
    } else {
        None
    }
}

/// The reason given for a filter path of more than two segments.
pub open spec fn too_many_terms_reason(n: nat) -> Seq<char> {
    "expected 0 - 2 filter terms, not "@ + decimal(n)
}

/// Reads the filter path of a request (segments separated by `/`): at most
/// two segments, type then subtype, where an empty segment filters nothing.
pub fn i18n_filter(filter: &str) -> (r: Result<I18nFilter, ApiResponse>)
    ensures
        ({
            let items = split_chars(filter@, '/');
            match r {
                Ok(f) => items.len() <= 2 && opt_view(f.type_filter) == type_filter_of(items)
                    && opt_view(f.subtype_filter) == subtype_filter_of(items),
                Err(e) => items.len() > 2 && is_bad(e, STATUS_BAD_REQUEST, too_many_terms_reason(items.len())),
            }
        }),
{
    let items = split_on(filter, '/');
    proof {
        lemma_split_nonempty(filter@, '/');
    }
    if items.len() > 2 {
        let mut reason = "expected 0 - 2 filter terms, not ".to_owned();
        push_decimal(&mut reason, items.len() as u64);
        return Err(bad_response(STATUS_BAD_REQUEST, reason));
    }
    let mut type_filter: Option<String> = None;
    let mut subtype_filter: Option<String> = None;
    if items.len() > 0 && !items[0].as_str().is_empty() {
        proof {
            assert(items@[0]@ == split_chars(filter@, '/')[0]);
        }
        type_filter = Some(items[0].clone());
        if items.len() > 1 && !items[1].as_str().is_empty() {
            subtype_filter = Some(items[1].clone());
        }
    }
    proof {
        let it = split_chars(filter@, '/');
        assert(items@[0]@ == it[0]);
        if items@.len() > 1 {
            assert(items@[1]@ == it[1]);
        }
    }
    Ok(I18nFilter { type_filter, subtype_filter })
}

/// Whether a key passes a filter.
pub open spec fn passes(filter: Option<Seq<char>>, key: Seq<char>) -> bool {
    match filter {
        Some(f) => f == key,
        None => true,
    }
}

fn passes_exec(filter: &Option<String>, key: &String) -> (r: bool)
    ensures
        r == passes(opt_view(*filter), key@),
{
    match filter {
        Some(f) => str_eq(f.as_str(), key.as_str()),
        None => true,
    }
}

// ---------------------------------------------------------------- negotiation

/// The language chosen for a term and its translation: the first of the
/// user's languages that the term is translated into.
pub open spec fn negotiate(langs: Seq<Seq<char>>, tl: Seq<(Seq<char>, Json)>) -> Option<(Seq<char>, Json)>
    decreases langs.len(),
{
    if langs.len() == 0 {
        None
    } else if has_key(tl, langs[0]) {
        Some((langs[0], lookup(tl, langs[0]).unwrap()))
    } else {
        negotiate(langs.drop_first(), tl)
    }
}

/// The negotiated record of a term: `{"language": l, "translation": t}`, or
/// an empty object when no user language is available.
pub open spec fn negotiated_record(langs: Seq<Seq<char>>, tl: Seq<(Seq<char>, Json)>) -> Json {
    match negotiate(langs, tl) {
        Some((l, t)) => Json::Object(seq![("language"@, Json::Str(l)), ("translation"@, t)]),
        None => Json::Object(Seq::empty()),
    }
}

pub open spec fn negotiated_terms(terms: Seq<(Seq<char>, Json)>, langs: Seq<Seq<char>>) -> Seq<(Seq<char>, Json)>
    decreases terms.len(),
{
    if terms.len() == 0 {
        Seq::empty()
    } else {
        negotiated_terms(terms.drop_last(), langs).push(
            (terms.last().0, negotiated_record(langs, members(terms.last().1))),
        )
    }
}

pub open spec fn negotiated_subtypes(
    subs: Seq<(Seq<char>, Json)>,
    sf: Option<Seq<char>>,
    langs: Seq<Seq<char>>,
) -> Seq<(Seq<char>, Json)>
    decreases subs.len(),
{
    if subs.len() == 0 {
        Seq::empty()
    } else {
        let rest = negotiated_subtypes(subs.drop_last(), sf, langs);
        if passes(sf, subs.last().0) {
            rest.push((subs.last().0, Json::Object(negotiated_terms(members(subs.last().1), langs))))
        } else {
            rest
        }
    }
}

/// The negotiated document: for each type and subtype that pass the filters,
/// each term with its negotiated record.
pub open spec fn negotiated_doc(
    types: Seq<(Seq<char>, Json)>,
    tf: Option<Seq<char>>,
    sf: Option<Seq<char>>,
    langs: Seq<Seq<char>>,
) -> Seq<(Seq<char>, Json)>
    decreases types.len(),
{
    if types.len() == 0 {
        Seq::empty()
    } else {
        let rest = negotiated_doc(types.drop_last(), tf, sf, langs);
        if passes(tf, types.last().0) {
            rest.push(
                (types.last().0, Json::Object(negotiated_subtypes(members(types.last().1), sf, langs))),
            )
        } else {
            rest
        }
    }
}

proof fn lemma_negotiate_skip(langs: Seq<Seq<char>>, tl: Seq<(Seq<char>, Json)>, i: int)
    requires
        0 <= i < langs.len(),
    ensures
        negotiate(langs.skip(i), tl) == (if has_key(tl, langs[i]) {
            Some((langs[i], lookup(tl, langs[i]).unwrap()))
        } else {
            negotiate(langs.skip(i + 1), tl)
        }),
{
    assert(langs.skip(i).drop_first() =~= langs.skip(i + 1));
    assert(langs.skip(i)[0] == langs[i]);
}

/// Chooses the translation of one term (the languages of the term are `tl`).
fn negotiate_exec(languages: &Vec<String>, tl: &Vec<(String, JsonValue)>) -> (r: Option<(String, JsonValue)>)
    ensures
        match negotiate(string_views(languages@), view_members(tl@)) {
            Some((l, t)) => r is Some && (r->0).0@ == l && (r->0).1@ == t,
            None => r is None,
        },
{
    let ghost langs = string_views(languages@);
    let mut i: usize = 0;
    assert(langs.skip(0) =~= langs);
    while i < languages.len()
        invariant
            i <= languages@.len(),
            langs == string_views(languages@),
            negotiate(langs, view_members(tl@)) == negotiate(langs.skip(i as int), view_members(tl@)),
        decreases languages@.len() - i,
    {
        proof {
            lemma_negotiate_skip(langs, view_members(tl@), i as int);
        }
        match members_get(tl, languages[i].as_str()) {
            Some(v) => {
                proof {
                    lemma_has_first_key(view_members(tl@), langs[i as int]);
                }
                return Some((languages[i].clone(), v.copy()));
            },
            None => {
                proof {
                    if has_key(view_members(tl@), langs[i as int]) {
                        lemma_has_first_key(view_members(tl@), langs[i as int]);
                        let k = choose|k: int| is_first_key(view_members(tl@), langs[i as int], k);
                        lemma_lookup_at(view_members(tl@), langs[i as int], k);
                    }
                }
            },
        }
        i += 1;
    }
    assert(langs.skip(i as int).len() == 0);
    None
}

/// The members of an object value.
fn members_of(j: &JsonValue) -> (r: &Vec<(String, JsonValue)>)
    requires
        is_object(j@),
    ensures
        view_members(r@) == members(j@),
{
    match j {
        JsonValue::Object(m) => m,
        _ => {
            assert(false);
            unreached()
        },
    }
}

fn negotiated_record_exec(languages: &Vec<String>, tl: &Vec<(String, JsonValue)>) -> (r: JsonValue)
    ensures
        r@ == negotiated_record(string_views(languages@), view_members(tl@)),
{
    match negotiate_exec(languages, tl) {
        Some((l, t)) => {
            let mut m: Vec<(String, JsonValue)> = Vec::new();
            m.push(("language".to_owned(), JsonValue::Str(l)));
            m.push(("translation".to_owned(), t));
            proof {
                let target = seq![
                    ("language"@, Json::Str(m@[0].1@->Str_0)),
                    ("translation"@, m@[1].1@),
                ];
                lemma_view_members_eq(m@, target);
            }
            JsonValue::Object(m)
        },
        None => {
            let m: Vec<(String, JsonValue)> = Vec::new();
            proof {
                lemma_view_members_eq(m@, Seq::empty());
            }
            JsonValue::Object(m)
        },
    }
}

fn negotiated_terms_exec(languages: &Vec<String>, terms: &Vec<(String, JsonValue)>) -> (r: Vec<(String, JsonValue)>)
    requires
        all_objects(view_members(terms@)),
    ensures
        view_members(r@) == negotiated_terms(view_members(terms@), string_views(languages@)),
{
    let ghost tv = view_members(terms@);
    let ghost langs = string_views(languages@);
    proof {
        lemma_view_members(terms@);
    }
    let mut out: Vec<(String, JsonValue)> = Vec::new();
    let mut i: usize = 0;
    proof {
        lemma_view_members_eq(out@, negotiated_terms(tv.take(0), langs));
    }
    while i < terms.len()
        invariant
            i <= terms@.len(),
            tv == view_members(terms@),
            tv.len() == terms@.len(),
            langs == string_views(languages@),
            all_objects(tv),
            forall|k: int| 0 <= k < terms@.len() ==> #[trigger] tv[k] == (terms@[k].0@, terms@[k].1@),
            view_members(out@) == negotiated_terms(tv.take(i as int), langs),
        decreases terms@.len() - i,
    {
        assert(is_object(tv[i as int].1));
        let tl = members_of(&terms[i].1);
        let rec = negotiated_record_exec(languages, tl);
        let ghost before = out@;
        let key = terms[i].0.clone();
        out.push((key, rec));
        proof {
            assert(tv.take(i + 1).drop_last() =~= tv.take(i as int));
            lemma_view_members_push(before, (key, rec));
        }
        i += 1;
    }
    assert(tv.take(terms@.len() as int) =~= tv);
    out
}


fn negotiated_subtypes_exec(
    languages: &Vec<String>,
    subs: &Vec<(String, JsonValue)>,
    sf: &Option<String>,
) -> (r: Vec<(String, JsonValue)>)
    requires
        all_objects(view_members(subs@)),
        forall|k: int| 0 <= k < subs@.len() ==> all_objects(members(#[trigger] view_members(subs@)[k].1)),
    ensures
        view_members(r@) == negotiated_subtypes(view_members(subs@), opt_view(*sf), string_views(languages@)),
{
    let ghost sv = view_members(subs@);
    let ghost langs = string_views(languages@);
    proof {
        lemma_view_members(subs@);
    }
    let mut out: Vec<(String, JsonValue)> = Vec::new();
    let mut i: usize = 0;
    proof {
        lemma_view_members_eq(out@, negotiated_subtypes(sv.take(0), opt_view(*sf), langs));
    }
    while i < subs.len()
        invariant
            i <= subs@.len(),
            sv == view_members(subs@),
            sv.len() == subs@.len(),
            langs == string_views(languages@),
            all_objects(sv),
            forall|k: int| 0 <= k < sv.len() ==> all_objects(members(#[trigger] sv[k].1)),
            forall|k: int| 0 <= k < subs@.len() ==> #[trigger] sv[k] == (subs@[k].0@, subs@[k].1@),
            view_members(out@) == negotiated_subtypes(sv.take(i as int), opt_view(*sf), langs),
        decreases subs@.len() - i,
    {
        proof {
            assert(sv.take(i + 1).drop_last() =~= sv.take(i as int));
            assert(sv[i as int] == (subs@[i as int].0@, subs@[i as int].1@));
        }
        if passes_exec(sf, &subs[i].0) {
            assert(is_object(sv[i as int].1));
            let terms = members_of(&subs[i].1);
            let t = negotiated_terms_exec(languages, terms);
            let ghost before = out@;
            let key = subs[i].0.clone();
            let obj = JsonValue::Object(t);
            out.push((key, obj));
            proof {
                lemma_view_members_push(before, (key, obj));
            }
        }
        i += 1;
    }
    assert(sv.take(subs@.len() as int) =~= sv);
    out
}

/// The negotiated translations of a document: for each type and subtype that
/// pass the filter, each term with its chosen language and translation.
pub fn negotiated_i18n(doc: &JsonValue, languages: &Vec<String>, filter: &I18nFilter) -> (r: JsonValue)
    requires
        is_i18n_doc(doc@),
    ensures
        r@ == Json::Object(
            negotiated_doc(
                members(doc@),
                opt_view(filter.type_filter),
                opt_view(filter.subtype_filter),
                string_views(languages@),
            ),
        ),
{
    let types = members_of(doc);
    let ghost tv = view_members(types@);
    let ghost langs = string_views(languages@);
    let ghost tf = opt_view(filter.type_filter);
    let ghost sf = opt_view(filter.subtype_filter);
    proof {
        lemma_view_members(types@);
    }
    let mut out: Vec<(String, JsonValue)> = Vec::new();
    let mut i: usize = 0;
    proof {
        lemma_view_members_eq(out@, negotiated_doc(tv.take(0), tf, sf, langs));
    }
    while i < types.len()
        invariant
            i <= types@.len(),
            tv == view_members(types@),
            tv == members(doc@),
            is_i18n_doc(doc@),
            tv.len() == types@.len(),
            langs == string_views(languages@),
            tf == opt_view(filter.type_filter),
            sf == opt_view(filter.subtype_filter),
            forall|k: int| 0 <= k < types@.len() ==> #[trigger] tv[k] == (types@[k].0@, types@[k].1@),
            view_members(out@) == negotiated_doc(tv.take(i as int), tf, sf, langs),
        decreases types@.len() - i,
    {
        proof {
            assert(tv.take(i + 1).drop_last() =~= tv.take(i as int));
        }
        if passes_exec(&filter.type_filter, &types[i].0) {
            proof {
                assert(is_object(tv[i as int].1));
                assert(all_objects(members(tv[i as int].1)));
                assert forall|k: int| 0 <= k < members(tv[i as int].1).len() implies all_objects(
                    members(#[trigger] members(tv[i as int].1)[k].1),
                ) by {
                    assert(all_objects(members(members(members(doc@)[i as int].1)[k].1)));
                }
            }
            let subs = members_of(&types[i].1);
            proof {
                assert(view_members(subs@) == members(tv[i as int].1));
                assert forall|k: int| 0 <= k < subs@.len() implies all_objects(
                    members(#[trigger] view_members(subs@)[k].1),
                ) by {
                    lemma_view_members(subs@);
                    assert(view_members(subs@)[k] == members(tv[i as int].1)[k]);
                }
            }
            let t = negotiated_subtypes_exec(languages, subs, &filter.subtype_filter);
            let ghost before = out@;
            let key = types[i].0.clone();
            let obj = JsonValue::Object(t);
            out.push((key, obj));
            proof {
                lemma_view_members_push(before, (key, obj));
            }
        }
        i += 1;
    }
    assert(tv.take(types@.len() as int) =~= tv);
    JsonValue::Object(out)
}


// ---------------------------------------------------------------- flat

/// The flat key of a term: `type:subtype:term`.
pub open spec fn flat_key(ty: Seq<char>, st: Seq<char>, term: Seq<char>) -> Seq<char> {
    ty + ":"@ + st + ":"@ + term
}

pub open spec fn flat_terms(ty: Seq<char>, st: Seq<char>, terms: Seq<(Seq<char>, Json)>, langs: Seq<Seq<char>>) -> Seq<(Seq<char>, Json)>
    decreases terms.len(),
{
    if terms.len() == 0 {
        Seq::empty()
    } else {
        let rest = flat_terms(ty, st, terms.drop_last(), langs);
        match negotiate(langs, members(terms.last().1)) {
            Some((_, t)) => rest.push((flat_key(ty, st, terms.last().0), t)),
            None => rest,
        }
    }
}

pub open spec fn flat_subtypes(ty: Seq<char>, subs: Seq<(Seq<char>, Json)>, sf: Option<Seq<char>>, langs: Seq<Seq<char>>) -> Seq<(Seq<char>, Json)>
    decreases subs.len(),
{
    if subs.len() == 0 {
        Seq::empty()
    } else {
        let rest = flat_subtypes(ty, subs.drop_last(), sf, langs);
        if passes(sf, subs.last().0) {
            rest + flat_terms(ty, subs.last().0, members(subs.last().1), langs)
        } else {
            rest
        }
    }
}

/// The flat translations of a document: for each term of the types and
/// subtypes that pass the filter and that has a user language, its flat key
/// and chosen translation, in document order.
pub open spec fn flat_doc(types: Seq<(Seq<char>, Json)>, tf: Option<Seq<char>>, sf: Option<Seq<char>>, langs: Seq<Seq<char>>) -> Seq<(Seq<char>, Json)>
    decreases types.len(),
{
    if types.len() == 0 {
        Seq::empty()
    } else {
        let rest = flat_doc(types.drop_last(), tf, sf, langs);
        if passes(tf, types.last().0) {
            rest + flat_subtypes(types.last().0, members(types.last().1), sf, langs)
        } else {
            rest
        }
    }
}

fn flat_key_exec(ty: &String, st: &String, term: &String) -> (r: String)
    ensures
        r@ == flat_key(ty@, st@, term@),
{
    let mut r = concat3(ty.as_str(), ":", st.as_str());
    push_str(&mut r, ":");
    push_str(&mut r, term.as_str());
    r
}

fn flat_terms_into(
    out: &mut Vec<(String, JsonValue)>,
    ty: &String,
    st: &String,
    terms: &Vec<(String, JsonValue)>,
    languages: &Vec<String>,
)
    requires
        all_objects(view_members(terms@)),
    ensures
        view_members(final(out)@) == view_members(old(out)@) + flat_terms(ty@, st@, view_members(terms@), string_views(languages@)),
{
    let ghost tv = view_members(terms@);
    let ghost langs = string_views(languages@);
    let ghost start = view_members(out@);
    proof {
        lemma_view_members(terms@);
        assert(start + flat_terms(ty@, st@, tv.take(0), langs) =~= start);
    }
    let mut i: usize = 0;
    while i < terms.len()
        invariant
            i <= terms@.len(),
            tv == view_members(terms@),
            tv.len() == terms@.len(),
            langs == string_views(languages@),
            all_objects(tv),
            forall|k: int| 0 <= k < terms@.len() ==> #[trigger] tv[k] == (terms@[k].0@, terms@[k].1@),
            view_members(out@) == start + flat_terms(ty@, st@, tv.take(i as int), langs),
        decreases terms@.len() - i,
    {
        proof {
            assert(tv.take(i + 1).drop_last() =~= tv.take(i as int));
        }
        assert(is_object(tv[i as int].1));
        let tl = members_of(&terms[i].1);
        match negotiate_exec(languages, tl) {
            Some((_, t)) => {
                let key = flat_key_exec(ty, st, &terms[i].0);
                let ghost before = out@;
                out.push((key, t));
                proof {
                    lemma_view_members_push(before, (key, t));
                    assert(view_members(out@) =~= start + flat_terms(ty@, st@, tv.take(i + 1), langs));
                }
            },
            None => {},
        }
        i += 1;
    }
    assert(tv.take(terms@.len() as int) =~= tv);
}

fn flat_subtypes_into(
    out: &mut Vec<(String, JsonValue)>,
    ty: &String,
    subs: &Vec<(String, JsonValue)>,
    sf: &Option<String>,
    languages: &Vec<String>,
)
    requires
        all_objects(view_members(subs@)),
        forall|k: int| 0 <= k < subs@.len() ==> all_objects(members(#[trigger] view_members(subs@)[k].1)),
    ensures
        view_members(final(out)@) == view_members(old(out)@) + flat_subtypes(ty@, view_members(subs@), opt_view(*sf), string_views(languages@)),
{
    let ghost sv = view_members(subs@);
    let ghost langs = string_views(languages@);
    let ghost start = view_members(out@);
    proof {
        lemma_view_members(subs@);
        assert(start + flat_subtypes(ty@, sv.take(0), opt_view(*sf), langs) =~= start);
    }
    let mut i: usize = 0;
    while i < subs.len()
        invariant
            i <= subs@.len(),
            sv == view_members(subs@),
            sv.len() == subs@.len(),
            langs == string_views(languages@),
            all_objects(sv),
            forall|k: int| 0 <= k < sv.len() ==> all_objects(members(#[trigger] sv[k].1)),
            forall|k: int| 0 <= k < subs@.len() ==> #[trigger] sv[k] == (subs@[k].0@, subs@[k].1@),
            view_members(out@) == start + flat_subtypes(ty@, sv.take(i as int), opt_view(*sf), langs),
        decreases subs@.len() - i,
    {
        proof {
            assert(sv.take(i + 1).drop_last() =~= sv.take(i as int));
            assert(sv[i as int] == (subs@[i as int].0@, subs@[i as int].1@));
        }
        if passes_exec(sf, &subs[i].0) {
            assert(is_object(sv[i as int].1));
            let terms = members_of(&subs[i].1);
            let ghost mid = view_members(out@);
            flat_terms_into(out, ty, &subs[i].0, terms, languages);
            proof {
                assert(view_members(out@) =~= start + flat_subtypes(ty@, sv.take(i + 1), opt_view(*sf), langs));
            }
        }
        i += 1;
    }
    assert(sv.take(subs@.len() as int) =~= sv);
}

/// The flat translations of a document, in document order. Where two terms
/// have the same flat key, the later one is what a map built from these
/// members in order keeps.
pub fn flat_i18n(doc: &JsonValue, languages: &Vec<String>, filter: &I18nFilter) -> (r: JsonValue)
    requires
        is_i18n_doc(doc@),
    ensures
        r@ == Json::Object(
            flat_doc(
                members(doc@),
                opt_view(filter.type_filter),
                opt_view(filter.subtype_filter),
                string_views(languages@),
            ),
        ),
{
    let types = members_of(doc);
    let ghost tv = view_members(types@);
    let ghost langs = string_views(languages@);
    let ghost tf = opt_view(filter.type_filter);
    let ghost sf = opt_view(filter.subtype_filter);
    proof {
        lemma_view_members(types@);
    }
    let mut out: Vec<(String, JsonValue)> = Vec::new();
    proof {
        lemma_view_members_eq(out@, flat_doc(tv.take(0), tf, sf, langs));
    }
    let mut i: usize = 0;
    while i < types.len()
        invariant
            i <= types@.len(),
            tv == view_members(types@),
            tv == members(doc@),
            is_i18n_doc(doc@),
            tv.len() == types@.len(),
            langs == string_views(languages@),
            tf == opt_view(filter.type_filter),
            sf == opt_view(filter.subtype_filter),
            forall|k: int| 0 <= k < types@.len() ==> #[trigger] tv[k] == (types@[k].0@, types@[k].1@),
            view_members(out@) == flat_doc(tv.take(i as int), tf, sf, langs),
        decreases types@.len() - i,
    {
        proof {
            assert(tv.take(i + 1).drop_last() =~= tv.take(i as int));
        }
        if passes_exec(&filter.type_filter, &types[i].0) {
            assert(is_object(tv[i as int].1));
            let subs = members_of(&types[i].1);
            proof {
                assert(all_objects(members(tv[i as int].1)));
                assert forall|k: int| 0 <= k < subs@.len() implies all_objects(
                    members(#[trigger] view_members(subs@)[k].1),
                ) by {
                    lemma_view_members(subs@);
                    assert(view_members(subs@)[k] == members(tv[i as int].1)[k]);
                    assert(all_objects(members(members(members(doc@)[i as int].1)[k].1)));
                }
            }
            flat_subtypes_into(&mut out, &types[i].0, subs, &filter.subtype_filter, languages);
        }
        i += 1;
    }
    assert(tv.take(types@.len() as int) =~= tv);
    JsonValue::Object(out)
}


// ---------------------------------------------------------------- untranslated

pub open spec fn untranslated_terms(ty: Seq<char>, st: Seq<char>, terms: Seq<(Seq<char>, Json)>, lang: Seq<char>) -> Seq<Seq<char>>
    decreases terms.len(),
{
    if terms.len() == 0 {
        Seq::empty()
    } else {
        let rest = untranslated_terms(ty, st, terms.drop_last(), lang);
        if has_key(members(terms.last().1), lang) {
            rest
        } else {
            rest.push(flat_key(ty, st, terms.last().0))
        }
    }
}

pub open spec fn untranslated_subtypes(ty: Seq<char>, subs: Seq<(Seq<char>, Json)>, lang: Seq<char>) -> Seq<Seq<char>>
    decreases subs.len(),
{
    if subs.len() == 0 {
        Seq::empty()
    } else {
        untranslated_subtypes(ty, subs.drop_last(), lang) + untranslated_terms(ty, subs.last().0, members(subs.last().1), lang)
    }
}

/// The flat keys of the terms that have no translation into `lang`, in
/// document order.
pub open spec fn untranslated_doc(types: Seq<(Seq<char>, Json)>, lang: Seq<char>) -> Seq<Seq<char>>
    decreases types.len(),
{
    if types.len() == 0 {
        Seq::empty()
    } else {
        untranslated_doc(types.drop_last(), lang) + untranslated_subtypes(types.last().0, members(types.last().1), lang)
    }
}

fn untranslated_terms_into(out: &mut Vec<String>, ty: &String, st: &String, terms: &Vec<(String, JsonValue)>, lang: &String)
    requires
        all_objects(view_members(terms@)),
    ensures
        string_views(final(out)@) == string_views(old(out)@) + untranslated_terms(ty@, st@, view_members(terms@), lang@),
{
    let ghost tv = view_members(terms@);
    let ghost start = string_views(out@);
    proof {
        lemma_view_members(terms@);
        assert(start + untranslated_terms(ty@, st@, tv.take(0), lang@) =~= start);
    }
    let mut i: usize = 0;
    while i < terms.len()
        invariant
            i <= terms@.len(),
            tv == view_members(terms@),
            tv.len() == terms@.len(),
            all_objects(tv),
            forall|k: int| 0 <= k < terms@.len() ==> #[trigger] tv[k] == (terms@[k].0@, terms@[k].1@),
            string_views(out@) == start + untranslated_terms(ty@, st@, tv.take(i as int), lang@),
        decreases terms@.len() - i,
    {
        proof {
            assert(tv.take(i + 1).drop_last() =~= tv.take(i as int));
        }
        assert(is_object(tv[i as int].1));
        let tl = members_of(&terms[i].1);
        if !members_contain(tl, lang.as_str()) {
            let key = flat_key_exec(ty, st, &terms[i].0);
            let ghost before = out@;
            out.push(key);
            proof {
                lemma_string_views_push(before, key);
                assert(string_views(out@) =~= start + untranslated_terms(ty@, st@, tv.take(i + 1), lang@));
            }
        }
        i += 1;
    }
    assert(tv.take(terms@.len() as int) =~= tv);
}

/// The flat keys of the terms of a document that are not translated into
/// `lang`, in document order.
pub fn untranslated_i18n(doc: &JsonValue, lang: &String) -> (r: Vec<String>)
    requires
        is_i18n_doc(doc@),
    ensures
        string_views(r@) == untranslated_doc(members(doc@), lang@),
{
    let types = members_of(doc);
    let ghost tv = view_members(types@);
    proof {
        lemma_view_members(types@);
    }
    let mut out: Vec<String> = Vec::new();
    assert(string_views(out@) =~= untranslated_doc(tv.take(0), lang@));
    let mut i: usize = 0;
    while i < types.len()
        invariant
            i <= types@.len(),
            tv == view_members(types@),
            tv == members(doc@),
            is_i18n_doc(doc@),
            tv.len() == types@.len(),
            forall|k: int| 0 <= k < types@.len() ==> #[trigger] tv[k] == (types@[k].0@, types@[k].1@),
            string_views(out@) == untranslated_doc(tv.take(i as int), lang@),
        decreases types@.len() - i,
    {
        proof {
            assert(tv.take(i + 1).drop_last() =~= tv.take(i as int));
        }
        assert(is_object(tv[i as int].1));
        let subs = members_of(&types[i].1);
        let ghost sv = view_members(subs@);
        let ghost mid = string_views(out@);
        proof {
            lemma_view_members(subs@);
            assert(sv == members(tv[i as int].1));
            assert(mid + untranslated_subtypes(tv[i as int].0, sv.take(0), lang@) =~= mid);
        }
        let mut k: usize = 0;
        while k < subs.len()
            invariant
                k <= subs@.len(),
                sv == view_members(subs@),
                sv.len() == subs@.len(),
                all_objects(sv),
                forall|j: int| 0 <= j < sv.len() ==> all_objects(members(#[trigger] sv[j].1)),
                forall|j: int| 0 <= j < subs@.len() ==> #[trigger] sv[j] == (subs@[j].0@, subs@[j].1@),
                i < types@.len(),
                types@[i as int].0@ == tv[i as int].0,
                string_views(out@) == mid + untranslated_subtypes(tv[i as int].0, sv.take(k as int), lang@),
            decreases subs@.len() - k,
        {
            proof {
                assert(sv.take(k + 1).drop_last() =~= sv.take(k as int));
                assert(sv[k as int] == (subs@[k as int].0@, subs@[k as int].1@));
            }
            assert(is_object(sv[k as int].1));
            let terms = members_of(&subs[k].1);
            untranslated_terms_into(&mut out, &types[i].0, &subs[k].0, terms, lang);
            proof {
                assert(string_views(out@) =~= mid + untranslated_subtypes(tv[i as int].0, sv.take(k + 1), lang@));
            }
            k += 1;
        }
        proof {
            assert(sv.take(subs@.len() as int) =~= sv);
            assert(string_views(out@) =~= untranslated_doc(tv.take(i + 1), lang@));
        }
        i += 1;
    }
    assert(tv.take(types@.len() as int) =~= tv);
    out
}


// ---------------------------------------------------------------- used languages

/// Some term among the first `n` of `terms` is translated into `l`.
pub open spec fn terms_have(terms: Seq<(Seq<char>, Json)>, l: Seq<char>, n: int) -> bool {
    exists|t: int| 0 <= t < n && has_key(members(#[trigger] terms[t].1), l)
}

/// Some term of the first `n` subtypes is translated into `l`.
pub open spec fn subtypes_have(subs: Seq<(Seq<char>, Json)>, l: Seq<char>, n: int) -> bool {
    exists|k: int| 0 <= k < n && terms_have(members(#[trigger] subs[k].1), l, members(subs[k].1).len() as int)
}

/// Some term of the first `n` types is translated into `l`.
pub open spec fn types_have(types: Seq<(Seq<char>, Json)>, l: Seq<char>, n: int) -> bool {
    exists|i: int| 0 <= i < n && subtypes_have(members(#[trigger] types[i].1), l, members(types[i].1).len() as int)
}

/// Whether at least one term of the document is translated into `l`.
pub open spec fn is_used_language(doc: Json, l: Seq<char>) -> bool {
    types_have(members(doc), l, members(doc).len() as int)
}

/// Adds `s` to `out` unless it is there already.
pub fn add_unique(out: &mut Vec<String>, s: &String)
    requires
        string_views(old(out)@).no_duplicates(),
    ensures
        string_views(final(out)@).no_duplicates(),
        forall|l: Seq<char>| #[trigger] string_views(final(out)@).contains(l) <==> (string_views(old(out)@).contains(l) || l == s@),
{
    let mut i: usize = 0;
    while i < out.len()
        invariant
            i <= out@.len(),
            string_views(out@).no_duplicates(),
            forall|j: int| 0 <= j < i ==> out@[j]@ != s@,
        decreases out@.len() - i,
    {
        if str_eq(out[i].as_str(), s.as_str()) {
            proof {
                assert(string_views(out@)[i as int] == s@);
                assert(string_views(out@).contains(s@));
            }
            return;
        }
        i += 1;
    }
    let ghost before = out@;
    let c = s.clone();
    out.push(c);
    proof {
        lemma_string_views_push(before, c);
        assert(!string_views(before).contains(s@)) by {
            if string_views(before).contains(s@) {
                let j = choose|j: int| 0 <= j < string_views(before).len() && string_views(before)[j] == s@;
                assert(before[j]@ == s@);
            }
        }
        assert forall|l: Seq<char>| string_views(out@).contains(l) <==> (string_views(before).contains(l) || l == s@) by {
            if string_views(out@).contains(l) {
                let j = choose|j: int| 0 <= j < string_views(out@).len() && string_views(out@)[j] == l;
                if j < before.len() {
                    assert(string_views(before)[j] == l);
                }
            }
            if string_views(before).contains(l) {
                let j = choose|j: int| 0 <= j < string_views(before).len() && string_views(before)[j] == l;
                assert(string_views(out@)[j] == l);
            }
            if l == s@ {
                assert(string_views(out@)[before.len() as int] == l);
            }
        }
    }
}

#[verifier::spinoff_prover]
fn add_term_langs(out: &mut Vec<String>, tl: &Vec<(String, JsonValue)>)
    requires
        string_views(old(out)@).no_duplicates(),
    ensures
        string_views(final(out)@).no_duplicates(),
        forall|l: Seq<char>| #[trigger] string_views(final(out)@).contains(l) <==> (string_views(old(out)@).contains(l) || has_key(view_members(tl@), l)),
{
    let ghost start = string_views(out@);
    let ghost tv = view_members(tl@);
    proof {
        lemma_view_members(tl@);
    }
    let mut i: usize = 0;
    while i < tl.len()
        invariant
            i <= tl@.len(),
            tv == view_members(tl@),
            tv.len() == tl@.len(),
            forall|k: int| 0 <= k < tl@.len() ==> #[trigger] tv[k] == (tl@[k].0@, tl@[k].1@),
            string_views(out@).no_duplicates(),
            forall|l: Seq<char>| string_views(out@).contains(l) <==> (start.contains(l) || exists|j: int| 0 <= j < i && tv[j].0 == l),
        decreases tl@.len() - i,
    {
        let ghost mid = string_views(out@);
        assert(forall|l: Seq<char>| #[trigger] mid.contains(l) <==> (start.contains(l) || exists|j: int| 0 <= j < i && tv[j].0 == l));
        add_unique(out, &tl[i].0);
        proof {
            assert(tv[i as int].0 == tl@[i as int].0@);
            assert forall|l: Seq<char>| string_views(out@).contains(l) <==> (start.contains(l) || exists|j: int| 0 <= j < i + 1 && tv[j].0 == l) by {
                assert(string_views(out@).contains(l) <==> (mid.contains(l) || l == tl@[i as int].0@));
                assert(mid.contains(l) <==> (start.contains(l) || exists|j: int| 0 <= j < i && tv[j].0 == l));
                if l == tv[i as int].0 {
                    assert(exists|j: int| 0 <= j < i + 1 && tv[j].0 == l);
                }
                if exists|j: int| 0 <= j < i + 1 && tv[j].0 == l {
                    let j = choose|j: int| 0 <= j < i + 1 && tv[j].0 == l;
                    if j < i {
                        assert(exists|j2: int| 0 <= j2 < i && tv[j2].0 == l);
                    }
                }
            }
        }
        i += 1;
    }
}

#[verifier::spinoff_prover]
fn add_terms_langs(out: &mut Vec<String>, terms: &Vec<(String, JsonValue)>)
    requires
        string_views(old(out)@).no_duplicates(),
        all_objects(view_members(terms@)),
    ensures
        string_views(final(out)@).no_duplicates(),
        forall|l: Seq<char>| #[trigger] string_views(final(out)@).contains(l) <==> (string_views(old(out)@).contains(l) || terms_have(view_members(terms@), l, terms@.len() as int)),
{
    let ghost start = string_views(out@);
    let ghost tv = view_members(terms@);
    proof {
        lemma_view_members(terms@);
    }
    let mut i: usize = 0;
    while i < terms.len()
        invariant
            i <= terms@.len(),
            tv == view_members(terms@),
            tv.len() == terms@.len(),
            all_objects(tv),
            forall|k: int| 0 <= k < terms@.len() ==> #[trigger] tv[k] == (terms@[k].0@, terms@[k].1@),
            string_views(out@).no_duplicates(),
            forall|l: Seq<char>| string_views(out@).contains(l) <==> (start.contains(l) || terms_have(tv, l, i as int)),
        decreases terms@.len() - i,
    {
        assert(is_object(tv[i as int].1));
        let tl = members_of(&terms[i].1);
        let ghost mid = string_views(out@);
        assert(forall|l: Seq<char>| #[trigger] mid.contains(l) <==> (start.contains(l) || terms_have(tv, l, i as int)));
        add_term_langs(out, tl);
        assert(forall|l: Seq<char>| #[trigger] string_views(out@).contains(l) <==> (mid.contains(l) || has_key(view_members(tl@), l)));
        proof {
            assert forall|l: Seq<char>| string_views(out@).contains(l) <==> (start.contains(l) || terms_have(tv, l, i + 1)) by {
                assert(string_views(out@).contains(l) <==> (mid.contains(l) || has_key(view_members(tl@), l)));
                assert(mid.contains(l) <==> (start.contains(l) || terms_have(tv, l, i as int)));
                if has_key(view_members(tl@), l) {
                    assert(has_key(members(tv[i as int].1), l));
                }
                if terms_have(tv, l, i + 1) {
                    let t = choose|t: int| 0 <= t < i + 1 && has_key(members(#[trigger] tv[t].1), l);
                    if t < i {
                        assert(terms_have(tv, l, i as int));
                    }
                }
            }
        }
        i += 1;
    }
}

#[verifier::spinoff_prover]
fn add_subtypes_langs(out: &mut Vec<String>, subs: &Vec<(String, JsonValue)>)
    requires
        string_views(old(out)@).no_duplicates(),
        all_objects(view_members(subs@)),
        forall|k: int| 0 <= k < subs@.len() ==> all_objects(members(#[trigger] view_members(subs@)[k].1)),
    ensures
        string_views(final(out)@).no_duplicates(),
        forall|l: Seq<char>| #[trigger] string_views(final(out)@).contains(l) <==> (string_views(old(out)@).contains(l) || subtypes_have(view_members(subs@), l, subs@.len() as int)),
{
    let ghost start = string_views(out@);
    let ghost sv = view_members(subs@);
    proof {
        lemma_view_members(subs@);
    }
    let mut i: usize = 0;
    while i < subs.len()
        invariant
            i <= subs@.len(),
            sv == view_members(subs@),
            sv.len() == subs@.len(),
            all_objects(sv),
            forall|j: int| 0 <= j < sv.len() ==> all_objects(members(#[trigger] sv[j].1)),
            forall|k: int| 0 <= k < subs@.len() ==> #[trigger] sv[k] == (subs@[k].0@, subs@[k].1@),
            string_views(out@).no_duplicates(),
            forall|l: Seq<char>| string_views(out@).contains(l) <==> (start.contains(l) || subtypes_have(sv, l, i as int)),
        decreases subs@.len() - i,
    {
        assert(is_object(sv[i as int].1));
        let terms = members_of(&subs[i].1);
        proof {
            lemma_view_members(terms@);
        }
        let ghost mid = string_views(out@);
        assert(forall|l: Seq<char>| #[trigger] mid.contains(l) <==> (start.contains(l) || subtypes_have(sv, l, i as int)));
        add_terms_langs(out, terms);
        assert(forall|l: Seq<char>| #[trigger] string_views(out@).contains(l) <==> (mid.contains(l) || terms_have(view_members(terms@), l, terms@.len() as int)));
        proof {
            assert forall|l: Seq<char>| string_views(out@).contains(l) <==> (start.contains(l) || subtypes_have(sv, l, i + 1)) by {
                assert(string_views(out@).contains(l) <==> (mid.contains(l) || terms_have(view_members(terms@), l, terms@.len() as int)));
                assert(mid.contains(l) <==> (start.contains(l) || subtypes_have(sv, l, i as int)));
                if terms_have(view_members(terms@), l, terms@.len() as int) {
                    assert(terms_have(members(sv[i as int].1), l, members(sv[i as int].1).len() as int));
                }
                if subtypes_have(sv, l, i + 1) {
                    let k = choose|k: int| 0 <= k < i + 1 && terms_have(members(#[trigger] sv[k].1), l, members(sv[k].1).len() as int);
                    if k < i {
                        assert(subtypes_have(sv, l, i as int));
                    } else {
                        lemma_view_members(terms@);
                    }
                }
            }
        }
        i += 1;
    }
}

/// The languages into which at least one term is translated, each once.
#[verifier::spinoff_prover]
pub fn used_languages(doc: &JsonValue) -> (r: Vec<String>)
    requires
        is_i18n_doc(doc@),
    ensures
        string_views(r@).no_duplicates(),
        forall|l: Seq<char>| string_views(r@).contains(l) <==> is_used_language(doc@, l),
{
    let types = members_of(doc);
    let ghost tv = view_members(types@);
    proof {
        lemma_view_members(types@);
    }
    let mut out: Vec<String> = Vec::new();
    assert(string_views(out@) =~= Seq::<Seq<char>>::empty());
    let mut i: usize = 0;
    while i < types.len()
        invariant
            i <= types@.len(),
            tv == view_members(types@),
            tv == members(doc@),
            is_i18n_doc(doc@),
            tv.len() == types@.len(),
            forall|k: int| 0 <= k < types@.len() ==> #[trigger] tv[k] == (types@[k].0@, types@[k].1@),
            string_views(out@).no_duplicates(),
            forall|l: Seq<char>| string_views(out@).contains(l) <==> types_have(tv, l, i as int),
        decreases types@.len() - i,
    {
        assert(is_object(tv[i as int].1));
        let subs = members_of(&types[i].1);
        proof {
            assert(all_objects(members(tv[i as int].1)));
            assert forall|k: int| 0 <= k < subs@.len() implies all_objects(
                members(#[trigger] view_members(subs@)[k].1),
            ) by {
                lemma_view_members(subs@);
                assert(view_members(subs@)[k] == members(tv[i as int].1)[k]);
                assert(all_objects(members(members(members(doc@)[i as int].1)[k].1)));
            }
        }
        let ghost before = string_views(out@);
        proof {
            lemma_view_members(subs@);
        }
        assert(forall|l: Seq<char>| #[trigger] before.contains(l) <==> types_have(tv, l, i as int));
        add_subtypes_langs(&mut out, subs);
        assert(forall|l: Seq<char>| #[trigger] string_views(out@).contains(l) <==> (before.contains(l) || subtypes_have(view_members(subs@), l, subs@.len() as int)));
        proof {
            assert forall|l: Seq<char>| string_views(out@).contains(l) <==> types_have(tv, l, i + 1) by {
                assert(string_views(out@).contains(l) <==> (before.contains(l) || subtypes_have(view_members(subs@), l, subs@.len() as int)));
                assert(before.contains(l) <==> types_have(tv, l, i as int));
                if subtypes_have(view_members(subs@), l, subs@.len() as int) {
                    lemma_view_members(subs@);
                    assert(subtypes_have(members(tv[i as int].1), l, members(tv[i as int].1).len() as int));
                }
                if types_have(tv, l, i + 1) {
                    let k = choose|k: int| 0 <= k < i + 1 && subtypes_have(members(#[trigger] tv[k].1), l, members(tv[k].1).len() as int);
                    if k < i {
                        assert(types_have(tv, l, i as int));
                    } else {
                        lemma_view_members(subs@);
                    }
                }
            }
        }
        i += 1;
    }
    out
}

// ---------------------------------------------------------------- shape

fn all_objects_exec(m: &Vec<(String, JsonValue)>) -> (r: bool)
    ensures
        r == all_objects(view_members(m@)),
{
    proof {
        lemma_view_members(m@);
    }
    let mut i: usize = 0;
    while i < m.len()
        invariant
            i <= m@.len(),
            view_members(m@).len() == m@.len(),
            forall|k: int| 0 <= k < m@.len() ==> #[trigger] view_members(m@)[k] == (m@[k].0@, m@[k].1@),
            forall|k: int| 0 <= k < i ==> is_object(#[trigger] view_members(m@)[k].1),
        decreases m@.len() - i,
    {
        match &m[i].1 {
            JsonValue::Object(_) => {},
            _ => {
                assert(!is_object(view_members(m@)[i as int].1));
                return false;
            },
        }
        i += 1;
    }
    true
}

/// Whether a document has the shape of a translation document: types,
/// subtypes and terms are all objects.
#[verifier::spinoff_prover]
pub fn check_i18n_doc(doc: &JsonValue) -> (r: bool)
    ensures
        r == is_i18n_doc(doc@),
{
    let types = match doc {
        JsonValue::Object(m) => m,
        _ => {
            return false;
        },
    };
    let ghost tv = view_members(types@);
    proof {
        lemma_view_members(types@);
    }
    if !all_objects_exec(types) {
        return false;
    }
    let mut i: usize = 0;
    while i < types.len()
        invariant
            i <= types@.len(),
            tv == view_members(types@),
            tv == members(doc@),
            is_object(doc@),
            all_objects(tv),
            tv.len() == types@.len(),
            forall|k: int| 0 <= k < types@.len() ==> #[trigger] tv[k] == (types@[k].0@, types@[k].1@),
            forall|a: int| 0 <= a < i ==> all_objects(members(#[trigger] tv[a].1)),
            forall|a: int, k: int| 0 <= a < i && 0 <= k < members(tv[a].1).len() ==> all_objects(members(#[trigger] members(#[trigger] tv[a].1)[k].1)),
        decreases types@.len() - i,
    {
        assert(is_object(tv[i as int].1));
        let subs = members_of(&types[i].1);
        proof {
            lemma_view_members(subs@);
        }
        if !all_objects_exec(subs) {
            return false;
        }
        let mut k: usize = 0;
        while k < subs.len()
            invariant
                k <= subs@.len(),
                i < tv.len(),
                tv == members(doc@),
                view_members(subs@) == members(tv[i as int].1),
                view_members(subs@).len() == subs@.len(),
                all_objects(view_members(subs@)),
                forall|j: int| 0 <= j < subs@.len() ==> #[trigger] view_members(subs@)[j] == (subs@[j].0@, subs@[j].1@),
                forall|j: int| 0 <= j < k ==> all_objects(members(#[trigger] view_members(subs@)[j].1)),
            decreases subs@.len() - k,
        {
            assert(is_object(view_members(subs@)[k as int].1));
            let terms = members_of(&subs[k].1);
            if !all_objects_exec(terms) {
                proof {
                    assert(!all_objects(members(members(members(doc@)[i as int].1)[k as int].1)));
                }
                return false;
            }
            k += 1;
        }
        i += 1;
    }
    true
}


// ---------------------------------------------------------------- laws

/// Negotiation honours the user's order of preference: the language chosen
/// for a term is one the term is translated into, its translation is the
/// term's translation for it, and no language the user prefers to it is
/// available; nothing is chosen exactly when none of the user's languages is
/// available.
pub proof fn law_negotiation_prefers_user_order(langs: Seq<Seq<char>>, tl: Seq<(Seq<char>, Json)>)
    ensures
        match negotiate(langs, tl) {
            Some((l, t)) => exists|i: int|
                0 <= i < langs.len() && langs[i] == l && has_key(tl, l) && lookup(tl, l) == Some(t)
                    && forall|j: int| 0 <= j < i ==> !has_key(tl, #[trigger] langs[j]),
            None => forall|j: int| 0 <= j < langs.len() ==> !has_key(tl, #[trigger] langs[j]),
        },
    decreases langs.len(),
{
    if langs.len() > 0 {
        law_negotiation_prefers_user_order(langs.drop_first(), tl);
        if has_key(tl, langs[0]) {
            lemma_has_first_key(tl, langs[0]);
            let k = choose|k: int| is_first_key(tl, langs[0], k);
            lemma_lookup_at(tl, langs[0], k);
            assert(langs[0] == langs[0]);
        } else {
            match negotiate(langs.drop_first(), tl) {
                Some((l, t)) => {
                    let i = choose|i: int|
                        0 <= i < langs.drop_first().len() && langs.drop_first()[i] == l && has_key(tl, l)
                            && lookup(tl, l) == Some(t) && forall|j: int|
                            0 <= j < i ==> !has_key(tl, #[trigger] langs.drop_first()[j]);
                    assert forall|j: int| 0 <= j < i + 1 implies !has_key(tl, #[trigger] langs[j]) by {
                        if j > 0 {
                            assert(langs[j] == langs.drop_first()[j - 1]);
                        }
                    }
                    assert(langs[i + 1] == l);
                },
                None => {
                    assert forall|j: int| 0 <= j < langs.len() implies !has_key(tl, #[trigger] langs[j]) by {
                        if j > 0 {
                            assert(langs[j] == langs.drop_first()[j - 1]);
                        }
                    }
                },
            }
        }
    }
}

/// With the single user language `lang`, every term of a subtype is either
/// in the flat translations or listed as untranslated, never both: the two
/// lists together count the terms exactly.
pub proof fn law_flat_and_untranslated_partition(
    ty: Seq<char>,
    st: Seq<char>,
    terms: Seq<(Seq<char>, Json)>,
    lang: Seq<char>,
)
    ensures
        flat_terms(ty, st, terms, seq![lang]).len() + untranslated_terms(ty, st, terms, lang).len() == terms.len(),
    decreases terms.len(),
{
    if terms.len() > 0 {
        law_flat_and_untranslated_partition(ty, st, terms.drop_last(), lang);
        let l1 = seq![lang];
        assert(l1.drop_first().len() == 0);
        assert(negotiate(l1.drop_first(), members(terms.last().1)) is None);
    }
}

// ---------------------------------------------------------------- flat and negotiated

/// The flat entries of the terms of a negotiated subtype: for each term
/// whose record has a translation, its flat key and that translation.
pub open spec fn flatten_terms(ty: Seq<char>, st: Seq<char>, recs: Seq<(Seq<char>, Json)>) -> Seq<(Seq<char>, Json)>
    decreases recs.len(),
{
    if recs.len() == 0 {
        Seq::empty()
    } else {
        let rest = flatten_terms(ty, st, recs.drop_last());
        let rec = members(recs.last().1);
        if has_key(rec, "translation"@) {
            rest.push((flat_key(ty, st, recs.last().0), lookup(rec, "translation"@).unwrap()))
        } else {
            rest
        }
    }
}

/// The flat entries of the subtypes of a negotiated type.
pub open spec fn flatten_subtypes(ty: Seq<char>, subs: Seq<(Seq<char>, Json)>) -> Seq<(Seq<char>, Json)>
    decreases subs.len(),
{
    if subs.len() == 0 {
        Seq::empty()
    } else {
        flatten_subtypes(ty, subs.drop_last()) + flatten_terms(ty, subs.last().0, members(subs.last().1))
    }
}

/// The flat entries of a negotiated document: `type:subtype:term` with the
/// negotiated translation, for every term that has one, in document order.
pub open spec fn flatten_doc(types: Seq<(Seq<char>, Json)>) -> Seq<(Seq<char>, Json)>
    decreases types.len(),
{
    if types.len() == 0 {
        Seq::empty()
    } else {
        flatten_doc(types.drop_last()) + flatten_subtypes(types.last().0, members(types.last().1))
    }
}

proof fn lemma_record_translation(langs: Seq<Seq<char>>, tl: Seq<(Seq<char>, Json)>)
    ensures
        has_key(members(negotiated_record(langs, tl)), "translation"@) <==> negotiate(langs, tl) is Some,
        negotiate(langs, tl) matches Some((_, t)) ==> lookup(members(negotiated_record(langs, tl)), "translation"@) == Some(t),
{
    reveal_strlit("translation");
    reveal_strlit("language");
    let m = members(negotiated_record(langs, tl));
    match negotiate(langs, tl) {
        Some((l, t)) => {
            assert("language"@ != "translation"@) by {
                assert("language"@[0] != "translation"@[0]);
            }
            assert(m[1].0 == "translation"@);
            assert(is_first_key(m, "translation"@, 1));
            let i = choose|i: int| is_first_key(m, "translation"@, i);
            crate::json::lemma_first_key_unique(m, "translation"@, i, 1);
        },
        None => {
            assert(m.len() == 0);
        },
    }
}

proof fn lemma_flat_terms(ty: Seq<char>, st: Seq<char>, terms: Seq<(Seq<char>, Json)>, langs: Seq<Seq<char>>)
    ensures
        flat_terms(ty, st, terms, langs) == flatten_terms(ty, st, negotiated_terms(terms, langs)),
    decreases terms.len(),
{
    if terms.len() > 0 {
        lemma_flat_terms(ty, st, terms.drop_last(), langs);
        let nt = negotiated_terms(terms, langs);
        assert(nt.drop_last() =~= negotiated_terms(terms.drop_last(), langs));
        lemma_record_translation(langs, members(terms.last().1));
    }
}

proof fn lemma_flat_subtypes(ty: Seq<char>, subs: Seq<(Seq<char>, Json)>, sf: Option<Seq<char>>, langs: Seq<Seq<char>>)
    ensures
        flat_subtypes(ty, subs, sf, langs) == flatten_subtypes(ty, negotiated_subtypes(subs, sf, langs)),
    decreases subs.len(),
{
    if subs.len() > 0 {
        lemma_flat_subtypes(ty, subs.drop_last(), sf, langs);
        if passes(sf, subs.last().0) {
            let ns = negotiated_subtypes(subs, sf, langs);
            assert(ns.drop_last() =~= negotiated_subtypes(subs.drop_last(), sf, langs));
            lemma_flat_terms(ty, subs.last().0, members(subs.last().1), langs);
        }
    }
}

/// The flat translations carry exactly what negotiation chose: with the
/// same document, languages and filters, the flat output lists, for every
/// negotiated term that has a translation and only for those, the key
/// `type:subtype:term` with the negotiated translation, in document order.
pub proof fn law_flat_is_flattened_negotiation(
    types: Seq<(Seq<char>, Json)>,
    tf: Option<Seq<char>>,
    sf: Option<Seq<char>>,
    langs: Seq<Seq<char>>,
)
    ensures
        flat_doc(types, tf, sf, langs) == flatten_doc(negotiated_doc(types, tf, sf, langs)),
    decreases types.len(),
{
    if types.len() > 0 {
        law_flat_is_flattened_negotiation(types.drop_last(), tf, sf, langs);
        if passes(tf, types.last().0) {
            let nd = negotiated_doc(types, tf, sf, langs);
            assert(nd.drop_last() =~= negotiated_doc(types.drop_last(), tf, sf, langs));
            lemma_flat_subtypes(types.last().0, members(types.last().1), sf, langs);
        }
    }
}

// ---------------------------------------------------------------- untranslated terms and filters

proof fn lemma_untranslated_terms_complete(ty: Seq<char>, st: Seq<char>, terms: Seq<(Seq<char>, Json)>, lang: Seq<char>, t: int)
    requires
        0 <= t < terms.len(),
        !has_key(members(terms[t].1), lang),
    ensures
        untranslated_terms(ty, st, terms, lang).contains(flat_key(ty, st, terms[t].0)),
    decreases terms.len(),
{
    let r = untranslated_terms(ty, st, terms, lang);
    if t == terms.len() - 1 {
        assert(r[r.len() - 1] == flat_key(ty, st, terms[t].0));
    } else {
        let init = terms.drop_last();
        assert(init[t] == terms[t]);
        lemma_untranslated_terms_complete(ty, st, init, lang, t);
        let ri = untranslated_terms(ty, st, init, lang);
        let i = choose|i: int| 0 <= i < ri.len() && ri[i] == flat_key(ty, st, terms[t].0);
        assert(r[i] == ri[i]);
    }
}

proof fn lemma_untranslated_subtypes_complete(ty: Seq<char>, subs: Seq<(Seq<char>, Json)>, lang: Seq<char>, k: int, t: int)
    requires
        0 <= k < subs.len(),
        0 <= t < members(subs[k].1).len(),
        !has_key(members(members(subs[k].1)[t].1), lang),
    ensures
        untranslated_subtypes(ty, subs, lang).contains(flat_key(ty, subs[k].0, members(subs[k].1)[t].0)),
    decreases subs.len(),
{
    let key = flat_key(ty, subs[k].0, members(subs[k].1)[t].0);
    let init = subs.drop_last();
    let a = untranslated_subtypes(ty, init, lang);
    let b = untranslated_terms(ty, subs.last().0, members(subs.last().1), lang);
    if k == subs.len() - 1 {
        lemma_untranslated_terms_complete(ty, subs[k].0, members(subs[k].1), lang, t);
        let i = choose|i: int| 0 <= i < b.len() && b[i] == key;
        assert((a + b)[a.len() + i] == key);
    } else {
        assert(init[k] == subs[k]);
        lemma_untranslated_subtypes_complete(ty, init, lang, k, t);
        let i = choose|i: int| 0 <= i < a.len() && a[i] == key;
        assert((a + b)[i] == key);
    }
}

/// Every term of the document that has no translation into `lang` is
/// listed, as `type:subtype:term`, whichever type, subtype and term it is.
pub proof fn law_untranslated_complete(types: Seq<(Seq<char>, Json)>, lang: Seq<char>, i: int, k: int, t: int)
    requires
        0 <= i < types.len(),
        0 <= k < members(types[i].1).len(),
        0 <= t < members(members(types[i].1)[k].1).len(),
        !has_key(members(members(members(types[i].1)[k].1)[t].1), lang),
    ensures
        untranslated_doc(types, lang).contains(flat_key(
            types[i].0,
            members(types[i].1)[k].0,
            members(members(types[i].1)[k].1)[t].0,
        )),
    decreases types.len(),
{
    let subs = members(types[i].1);
    let key = flat_key(types[i].0, subs[k].0, members(subs[k].1)[t].0);
    let init = types.drop_last();
    let a = untranslated_doc(init, lang);
    let b = untranslated_subtypes(types.last().0, members(types.last().1), lang);
    if i == types.len() - 1 {
        lemma_untranslated_subtypes_complete(types[i].0, subs, lang, k, t);
        let j = choose|j: int| 0 <= j < b.len() && b[j] == key;
        assert((a + b)[a.len() + j] == key);
    } else {
        assert(init[i] == types[i]);
        law_untranslated_complete(init, lang, i, k, t);
        let j = choose|j: int| 0 <= j < a.len() && a[j] == key;
        assert((a + b)[j] == key);
    }
}

proof fn lemma_untranslated_terms_sound(ty: Seq<char>, st: Seq<char>, terms: Seq<(Seq<char>, Json)>, lang: Seq<char>, j: int)
    requires
        0 <= j < untranslated_terms(ty, st, terms, lang).len(),
    ensures
        exists|t: int| 0 <= t < terms.len() && !has_key(members(terms[t].1), lang)
            && untranslated_terms(ty, st, terms, lang)[j] == flat_key(ty, st, #[trigger] terms[t].0),
    decreases terms.len(),
{
    let r = untranslated_terms(ty, st, terms, lang);
    let init = terms.drop_last();
    let ri = untranslated_terms(ty, st, init, lang);
    if j < ri.len() {
        lemma_untranslated_terms_sound(ty, st, init, lang, j);
        let t = choose|t: int| 0 <= t < init.len() && !has_key(members(init[t].1), lang)
            && ri[j] == flat_key(ty, st, #[trigger] init[t].0);
        assert(r[j] == ri[j]);
        assert(terms[t] == init[t]);
    } else {
        let t = terms.len() - 1;
        assert(terms[t] == terms.last());
    }
}

proof fn lemma_untranslated_subtypes_sound(ty: Seq<char>, subs: Seq<(Seq<char>, Json)>, lang: Seq<char>, j: int)
    requires
        0 <= j < untranslated_subtypes(ty, subs, lang).len(),
    ensures
        exists|k: int, t: int| 0 <= k < subs.len() && 0 <= t < members(subs[k].1).len()
            && !has_key(members(members(subs[k].1)[t].1), lang)
            && untranslated_subtypes(ty, subs, lang)[j] == flat_key(ty, #[trigger] subs[k].0, #[trigger] members(subs[k].1)[t].0),
    decreases subs.len(),
{
    let init = subs.drop_last();
    let a = untranslated_subtypes(ty, init, lang);
    let b = untranslated_terms(ty, subs.last().0, members(subs.last().1), lang);
    let r = untranslated_subtypes(ty, subs, lang);
    assert(r == a + b);
    if j < a.len() {
        lemma_untranslated_subtypes_sound(ty, init, lang, j);
        let (k, t) = choose|k: int, t: int| 0 <= k < init.len() && 0 <= t < members(init[k].1).len()
            && !has_key(members(members(init[k].1)[t].1), lang)
            && a[j] == flat_key(ty, #[trigger] init[k].0, #[trigger] members(init[k].1)[t].0);
        assert(subs[k] == init[k]);
        assert(r[j] == a[j]);
    } else {
        let k = subs.len() - 1;
        assert(subs[k] == subs.last());
        lemma_untranslated_terms_sound(ty, subs.last().0, members(subs.last().1), lang, j - a.len());
        let t = choose|t: int| 0 <= t < members(subs.last().1).len() && !has_key(members(members(subs.last().1)[t].1), lang)
            && b[j - a.len()] == flat_key(ty, subs.last().0, #[trigger] members(subs.last().1)[t].0);
        assert(r[j] == b[j - a.len()]);
        assert(members(subs[k].1)[t] == members(subs.last().1)[t]);
    }
}

/// Only terms without a translation into `lang` are listed: every listed
/// key is `type:subtype:term` of such a term of the document.
pub proof fn law_untranslated_sound(types: Seq<(Seq<char>, Json)>, lang: Seq<char>, j: int)
    requires
        0 <= j < untranslated_doc(types, lang).len(),
    ensures
        exists|i: int, k: int, t: int| 0 <= i < types.len() && 0 <= k < members(types[i].1).len()
            && 0 <= t < members(members(types[i].1)[k].1).len()
            && !has_key(members(members(members(types[i].1)[k].1)[t].1), lang)
            && untranslated_doc(types, lang)[j] == flat_key(
                #[trigger] types[i].0,
                #[trigger] members(types[i].1)[k].0,
                #[trigger] members(members(types[i].1)[k].1)[t].0,
            ),
    decreases types.len(),
{
    let init = types.drop_last();
    let a = untranslated_doc(init, lang);
    let b = untranslated_subtypes(types.last().0, members(types.last().1), lang);
    let r = untranslated_doc(types, lang);
    assert(r == a + b);
    if j < a.len() {
        law_untranslated_sound(init, lang, j);
        let (i, k, t) = choose|i: int, k: int, t: int| 0 <= i < init.len() && 0 <= k < members(init[i].1).len()
            && 0 <= t < members(members(init[i].1)[k].1).len()
            && !has_key(members(members(members(init[i].1)[k].1)[t].1), lang)
            && a[j] == flat_key(
                #[trigger] init[i].0,
                #[trigger] members(init[i].1)[k].0,
                #[trigger] members(members(init[i].1)[k].1)[t].0,
            );
        assert(types[i] == init[i]);
        assert(r[j] == a[j]);
    } else {
        let i = types.len() - 1;
        assert(types[i] == types.last());
        lemma_untranslated_subtypes_sound(types.last().0, members(types.last().1), lang, j - a.len());
        let subs = members(types.last().1);
        let (k, t) = choose|k: int, t: int| 0 <= k < subs.len() && 0 <= t < members(subs[k].1).len()
            && !has_key(members(members(subs[k].1)[t].1), lang)
            && b[j - a.len()] == flat_key(types.last().0, #[trigger] subs[k].0, #[trigger] members(subs[k].1)[t].0);
        assert(r[j] == b[j - a.len()]);
    }
}

proof fn lemma_split_without_sep(s: Seq<char>, sep: char)
    requires
        !s.contains(sep),
    ensures
        split_chars(s, sep) == seq![s],
    decreases s.len(),
{
    if s.len() > 0 {
        let d = s.drop_last();
        assert(!d.contains(sep)) by {
            if d.contains(sep) {
                let i = choose|i: int| 0 <= i < d.len() && d[i] == sep;
                assert(s[i] == sep);
            }
        }
        lemma_split_without_sep(d, sep);
        assert(s.last() != sep) by {
            assert(s[s.len() - 1] == s.last());
        }
        assert(d.push(s.last()) =~= s);
        assert(split_chars(s, sep) =~= seq![s]);
    } else {
        assert(s =~= Seq::<char>::empty());
    }
}

proof fn lemma_split_after_sep(p: Seq<char>, sep: char, b: Seq<char>)
    requires
        !b.contains(sep),
    ensures
        split_chars(p + seq![sep] + b, sep) == split_chars(p, sep).push(b),
    decreases b.len(),
{
    crate::text::lemma_split_nonempty(p, sep);
    if b.len() == 0 {
        let s = p + seq![sep] + b;
        assert(s.drop_last() =~= p);
        assert(s.last() == sep);
        assert(b =~= Seq::<char>::empty());
        assert(split_chars(s, sep) == split_chars(s.drop_last(), sep).push(Seq::<char>::empty()));
        assert(split_chars(s, sep) =~= split_chars(p, sep).push(b));
    } else {
        let d = b.drop_last();
        assert(!d.contains(sep)) by {
            if d.contains(sep) {
                let i = choose|i: int| 0 <= i < d.len() && d[i] == sep;
                assert(b[i] == sep);
            }
        }
        lemma_split_after_sep(p, sep, d);
        let s = p + seq![sep] + b;
        assert(s.drop_last() =~= p + seq![sep] + d);
        assert(s.last() == b.last());
        assert(b.last() != sep) by {
            assert(b[b.len() - 1] == b.last());
        }
        assert(d.push(b.last()) =~= b);
        assert(split_chars(s, sep) =~= split_chars(p, sep).push(b));
    }
}

/// A filter path of one non-empty segment filters on that type and on no
/// subtype.
pub proof fn law_filter_one_segment(filter: Seq<char>)
    requires
        filter.len() > 0,
        !filter.contains('/'),
    ensures
        type_filter_of(split_chars(filter, '/')) == Some(filter),
        subtype_filter_of(split_chars(filter, '/')) is None,
{
    lemma_split_without_sep(filter, '/');
}

/// A filter path `type/subtype` of two non-empty segments filters on that
/// type and that subtype.
pub proof fn law_filter_two_segments(ty: Seq<char>, st: Seq<char>)
    requires
        ty.len() > 0,
        st.len() > 0,
        !ty.contains('/'),
        !st.contains('/'),
    ensures
        type_filter_of(split_chars(ty + seq!['/'] + st, '/')) == Some(ty),
        subtype_filter_of(split_chars(ty + seq!['/'] + st, '/')) == Some(st),
{
    lemma_split_without_sep(ty, '/');
    lemma_split_after_sep(ty, '/', st);
    assert(split_chars(ty + seq!['/'] + st, '/') =~= seq![ty, st]);
}

} // verus!
