//! The notification stream: each round it sends the queued messages, the
//! network and debug status, and whatever of the position, project,
//! typography, logins and languages changed since the last round (all of
//! it on the first round).
use vstd::prelude::*;
use crate::endpoints::content::{join_lines, join_strings};
use crate::string_map::StringMap;
use crate::structs::{AppSettings, Bcv, ProjectIdentifier};
use crate::text::{decimal, push_decimal, push_str, str_eq, string_views};

verus! {

/// One event of the stream: its kind, its data and its number.
pub struct StreamEvent {
    pub event: String,
    pub data: String,
    pub id: u64,
}

/// What a stream remembers between rounds: the next event number, whether
/// the first round is still to come, and what it last reported.
pub struct StreamMemory {
    pub count: u64,
    pub first_time: bool,
    pub languages: String,
    pub i18n_update_count: u64,
    pub font_set: String,
    pub size: String,
    pub direction: String,
    pub bcv: Bcv,
    pub current_project: Option<ProjectIdentifier>,
    pub auth_tokens: StringMap<String>,
}

/// The languages as the stream reports them: joined by `/`.
pub open spec fn languages_text(langs: Seq<String>) -> Seq<char> {
    join_lines(string_views(langs), "/"@)
}

/// The memory of a stream that has just opened.
pub fn open_stream(settings: &AppSettings, i18n_update_count: u64) -> (m: StreamMemory)
    requires
        settings.wf(),
    ensures
        m.count == 0,
        m.first_time,
        m.languages@ == languages_text(settings.languages@),
        m.i18n_update_count == i18n_update_count,
        m.font_set == settings.typography.font_set,
        m.size == settings.typography.size,
        m.direction == settings.typography.direction,
        m.bcv == settings.bcv,
        m.current_project == settings.current_project,
        m.auth_tokens@ == settings.auth_tokens@,
        m.auth_tokens.wf(),
{
    StreamMemory {
        count: 0,
        first_time: true,
        languages: join_strings(&settings.languages, "/"),
        i18n_update_count,
        font_set: settings.typography.font_set.clone(),
        size: settings.typography.size.clone(),
        direction: settings.typography.direction.clone(),
        bcv: settings.bcv.copy(),
        current_project: match &settings.current_project {
            Some(p) => Some(p.copy()),
            None => None,
        },
        auth_tokens: settings.auth_tokens.copy_strings(),
    }
}

/// `enabled` or `disabled`.
pub open spec fn on_off(b: bool) -> Seq<char> {
    if b {
        "enabled"@
    } else {
        "disabled"@
    }
}

/// The data of the status event.
pub open spec fn status_data(net: bool, debug: bool) -> Seq<char> {
    "net--"@ + on_off(net) + "--debug--"@ + on_off(debug)
}

/// Whether the book, chapter or verse differ (the end of a range is not
/// compared).
pub open spec fn bcv_moved(a: Bcv, b: Bcv) -> bool {
    a.book_code@ != b.book_code@ || a.chapter != b.chapter || a.verse != b.verse
}

/// The data of a position event: `<book>--<chapter>--<verse>`.
pub open spec fn bcv_data(b: Bcv) -> Seq<char> {
    b.book_code@ + "--"@ + decimal(b.chapter as nat) + "--"@ + decimal(b.verse as nat)
}

/// Whether two projects differ.
pub open spec fn project_differs(a: ProjectIdentifier, b: ProjectIdentifier) -> bool {
    a.source@ != b.source@ || a.organization@ != b.organization@ || a.project@ != b.project@
}

/// The data of a project event: `<source>--<organization>--<project>`.
pub open spec fn project_data(p: ProjectIdentifier) -> Seq<char> {
    p.source@ + "--"@ + p.organization@ + "--"@ + p.project@
}

/// The data of the project event of a round, if there is one: a new
/// project is reported when there was none, when it differs, or on the
/// first round; a project that went away is reported as `null`.
pub open spec fn project_event_data(old: Option<ProjectIdentifier>, new: Option<ProjectIdentifier>, first: bool) -> Option<Seq<char>> {
    match new {
        Some(np) => match old {
            Some(op) => if project_differs(np, op) || first {
                Some(project_data(np))
            } else {
                None
            },
            None => Some(project_data(np)),
        },
        None => match old {
            Some(_) => Some("null"@),
            None => None,
        },
    }
}

/// `true` or `false`.
pub open spec fn bool_text(b: bool) -> Seq<char> {
    if b {
        "true"@
    } else {
        "false"@
    }
}

/// The login events of a round, one per endpoint in order: an endpoint
/// whose login appeared is reported as logged in; on the first round every
/// endpoint is reported with its login state.
pub open spec fn auth_events(
    endpoints: Seq<(Seq<char>, String)>,
    known: Map<Seq<char>, String>,
    now: Map<Seq<char>, String>,
    first: bool,
) -> Seq<(Seq<char>, Seq<char>)>
    decreases endpoints.len(),
{
    if endpoints.len() == 0 {
        Seq::empty()
    } else {
        let rest = auth_events(endpoints.drop_last(), known, now, first);
        let (name, ep) = endpoints.last();
        if now.dom().contains(name) != known.dom().contains(name) {
            rest.push(("auth"@, name + "--"@ + ep@ + "--"@ + bool_text(true)))
        } else if first {
            rest.push(("auth"@, name + "--"@ + ep@ + "--"@ + bool_text(known.dom().contains(name))))
        } else {
            rest
        }
    }
}

/// The events of one round, in order, before they are numbered.
pub open spec fn round_events(
    m: StreamMemory,
    msgs: Seq<String>,
    s: AppSettings,
    net: bool,
    debug: bool,
    i18n: u64,
) -> Seq<(Seq<char>, Seq<char>)> {
    let queued = Seq::new(msgs.len(), |i: int| ("misc"@, msgs[i]@));
    let status = seq![("status"@, status_data(net, debug))];
    let bcv = if bcv_moved(m.bcv, s.bcv) || m.first_time {
        seq![("bcv"@, bcv_data(s.bcv))]
    } else {
        Seq::empty()
    };
    let project = match project_event_data(m.current_project, s.current_project, m.first_time) {
        Some(d) => seq![("current_project"@, d)],
        None => Seq::empty(),
    };
    let typography = if m.font_set@ != s.typography.font_set@ || m.size@ != s.typography.size@
        || m.direction@ != s.typography.direction@ || m.first_time {
        seq![("typography"@, s.typography.font_set@ + "--"@ + s.typography.size@ + "--"@ + s.typography.direction@)]
    } else {
        Seq::empty()
    };
    let auth = auth_events(s.gitea_endpoints.entries(), m.auth_tokens@, s.auth_tokens@, m.first_time);
    let langs = if languages_text(s.languages@) != m.languages@ || m.first_time || i18n > m.i18n_update_count {
        seq![("languages"@, languages_text(s.languages@))]
    } else {
        Seq::empty()
    };
    queued + status + bcv + project + typography + auth + langs
}

/// Events numbered from `start`.
pub open spec fn numbered(events: Seq<(Seq<char>, Seq<char>)>, start: int) -> Seq<(Seq<char>, Seq<char>, int)> {
    Seq::new(events.len(), |i: int| (events[i].0, events[i].1, start + i))
}

/// The model of a list of stream events.
pub open spec fn event_views(v: Seq<StreamEvent>) -> Seq<(Seq<char>, Seq<char>, int)> {
    Seq::new(v.len(), |i: int| (v[i].event@, v[i].data@, v[i].id as int))
}

/// The logins a stream knows after a round: those it knew, and those of
/// endpoints that appeared.
pub open spec fn known_after(
    endpoints: Seq<(Seq<char>, String)>,
    known: Map<Seq<char>, String>,
    now: Map<Seq<char>, String>,
) -> Map<Seq<char>, String>
    decreases endpoints.len(),
{
    if endpoints.len() == 0 {
        known
    } else {
        let before = known_after(endpoints.drop_last(), known, now);
        let name = endpoints.last().0;
        if now.dom().contains(name) != known.dom().contains(name) {
            before.insert(name, now[name])
        } else {
            before
        }
    }
}

/// Whether every login the stream knows of an endpoint is still there: a
/// login that went away stops the stream.
pub open spec fn logins_kept(endpoints: Seq<(Seq<char>, String)>, known: Map<Seq<char>, String>, now: Map<Seq<char>, String>) -> bool {
    forall|i: int| 0 <= i < endpoints.len() && known.dom().contains(#[trigger] endpoints[i].0) ==> now.dom().contains(endpoints[i].0)
}

fn push_event(events: &mut Vec<StreamEvent>, count: &mut u64, event: &str, data: String)
    requires
        *old(count) < u64::MAX,
    ensures
        event_views(final(events)@) == event_views(old(events)@).push((event@, data@, *old(count) as int)),
        *final(count) == *old(count) + 1,
{
    let ghost before = events@;
    events.push(StreamEvent { event: event.to_owned(), data, id: *count });
    *count = *count + 1;
    assert(event_views(events@) =~= event_views(before).push((event@, data@, *old(count) as int)));
}

fn on_off_text(b: bool) -> (r: &'static str)
    ensures
        r@ == on_off(b),
{
    if b { "enabled" } else { "disabled" }
}

fn bool_str(b: bool) -> (r: &'static str)
    ensures
        r@ == bool_text(b),
{
    if b { "true" } else { "false" }
}

fn three_parts(a: &str, b: &str, c: &str) -> (r: String)
    ensures
        r@ == a@ + "--"@ + b@ + "--"@ + c@,
{
    let mut r = a.to_owned();
    push_str(&mut r, "--");
    push_str(&mut r, b);
    push_str(&mut r, "--");
    push_str(&mut r, c);
    r
}


proof fn lemma_numbered_push(acc: Seq<(Seq<char>, Seq<char>)>, x: (Seq<char>, Seq<char>), start: int)
    ensures
        numbered(acc.push(x), start) == numbered(acc, start).push((x.0, x.1, start + acc.len())),
{
    assert(numbered(acc.push(x), start) =~= numbered(acc, start).push((x.0, x.1, start + acc.len())));
}

proof fn lemma_known_after_other(
    eps: Seq<(Seq<char>, String)>,
    known: Map<Seq<char>, String>,
    now: Map<Seq<char>, String>,
    k: Seq<char>,
)
    requires
        forall|i: int| 0 <= i < eps.len() ==> (#[trigger] eps[i]).0 != k,
    ensures
        known_after(eps, known, now).dom().contains(k) == known.dom().contains(k),
    decreases eps.len(),
{
    if eps.len() > 0 {
        assert forall|i: int| 0 <= i < eps.drop_last().len() implies (#[trigger] eps.drop_last()[i]).0 != k by {
            assert(eps.drop_last()[i] == eps[i]);
        }
        lemma_known_after_other(eps.drop_last(), known, now, k);
        assert(eps.last() == eps[eps.len() - 1]);
    }
}

proof fn lemma_known_after_wf(
    eps: Seq<(Seq<char>, String)>,
    known: Map<Seq<char>, String>,
    now: Map<Seq<char>, String>,
    k: Seq<char>,
)
    requires
        logins_kept(eps, known, now),
        known_after(eps, known, now).dom().contains(k),
        !known.dom().contains(k),
    ensures
        now.dom().contains(k),
    decreases eps.len(),
{
    if eps.len() > 0 {
        let before = known_after(eps.drop_last(), known, now);
        assert(logins_kept(eps.drop_last(), known, now)) by {
            assert forall|i: int| 0 <= i < eps.drop_last().len() && known.dom().contains(#[trigger] eps.drop_last()[i].0) implies now.dom().contains(eps.drop_last()[i].0) by {
                assert(eps.drop_last()[i] == eps[i]);
            }
        }
        if before.dom().contains(k) {
            lemma_known_after_wf(eps.drop_last(), known, now, k);
        }
    }
}

/// One round of the stream: the queued messages, the status, and the
/// reports of what changed since the memory was taken, numbered on from
/// the memory's count; the memory then holds what was reported.
#[verifier::spinoff_prover]
#[verifier::rlimit(60)]
pub fn stream_round(
    m: &mut StreamMemory,
    msgs: Vec<String>,
    settings: &AppSettings,
    net: bool,
    debug: bool,
    i18n: u64,
) -> (events: Vec<StreamEvent>)
    requires
        settings.wf(),
        old(m).auth_tokens.wf(),
        old(m).count + msgs@.len() + settings.gitea_endpoints.entries().len() + 6 <= i32::MAX,
        logins_kept(settings.gitea_endpoints.entries(), old(m).auth_tokens@, settings.auth_tokens@),
    ensures
        event_views(events@) == numbered(
            round_events(*old(m), msgs@, *settings, net, debug, i18n),
            old(m).count as int,
        ),
        final(m).count == old(m).count + events@.len(),
        !final(m).first_time,
        final(m).auth_tokens.wf(),
        final(m).auth_tokens@ == known_after(settings.gitea_endpoints.entries(), old(m).auth_tokens@, settings.auth_tokens@),
        final(m).bcv == (if bcv_moved(old(m).bcv, settings.bcv) || old(m).first_time { settings.bcv } else { old(m).bcv }),
        final(m).current_project == (if project_event_data(old(m).current_project, settings.current_project, old(m).first_time) is Some {
            settings.current_project
        } else {
            old(m).current_project
        }),
        (old(m).font_set@ != settings.typography.font_set@ || old(m).size@ != settings.typography.size@
            || old(m).direction@ != settings.typography.direction@ || old(m).first_time) ==> (
            final(m).font_set == settings.typography.font_set && final(m).size == settings.typography.size
                && final(m).direction == settings.typography.direction),
        !(old(m).font_set@ != settings.typography.font_set@ || old(m).size@ != settings.typography.size@
            || old(m).direction@ != settings.typography.direction@ || old(m).first_time) ==> (
            final(m).font_set == old(m).font_set && final(m).size == old(m).size
                && final(m).direction == old(m).direction),
        final(m).languages@ == (if languages_text(settings.languages@) != old(m).languages@ || old(m).first_time
            || i18n > old(m).i18n_update_count { languages_text(settings.languages@) } else { old(m).languages@ }),
        final(m).i18n_update_count == (if i18n > old(m).i18n_update_count { i18n } else { old(m).i18n_update_count }),
{
    let ghost m0 = *m;
    let ghost start = m.count as int;
    let mut events: Vec<StreamEvent> = Vec::new();
    let mut count: u64 = m.count;
    let ghost mut acc: Seq<(Seq<char>, Seq<char>)> = Seq::empty();
    assert(event_views(events@) =~= numbered(acc, start));
    // queued messages
    let mut i: usize = 0;
    while i < msgs.len()
        invariant
            i <= msgs@.len(),
            start + msgs@.len() + 6 <= i32::MAX,
            count == start + acc.len(),
            event_views(events@) == numbered(acc, start),
            acc == Seq::new(i as nat, |k: int| ("misc"@, msgs@[k]@)),
        decreases msgs@.len() - i,
    {
        proof { lemma_numbered_push(acc, ("misc"@, msgs@[i as int]@), start); }
        push_event(&mut events, &mut count, "misc", msgs[i].clone());
        proof {
            acc = acc.push(("misc"@, msgs@[i as int]@));
            assert(acc =~= Seq::new((i + 1) as nat, |k: int| ("misc"@, msgs@[k]@)));
        }
        i += 1;
    }
    let ghost queued = acc;
    // status
    let mut st = "net--".to_owned();
    push_str(&mut st, on_off_text(net));
    push_str(&mut st, "--debug--");
    push_str(&mut st, on_off_text(debug));
    proof { lemma_numbered_push(acc, ("status"@, status_data(net, debug)), start); }
    push_event(&mut events, &mut count, "status", st);
    proof { acc = acc.push(("status"@, status_data(net, debug))); }
    let ghost after_status = acc;
    // position
    let moved = !str_eq(m.bcv.book_code.as_str(), settings.bcv.book_code.as_str())
        || m.bcv.chapter != settings.bcv.chapter || m.bcv.verse != settings.bcv.verse;
    if moved || m.first_time {
        m.bcv = settings.bcv.copy();
        let mut d = m.bcv.book_code.clone();
        push_str(&mut d, "--");
        push_decimal(&mut d, m.bcv.chapter as u64);
        push_str(&mut d, "--");
        push_decimal(&mut d, m.bcv.verse as u64);
        proof { lemma_numbered_push(acc, ("bcv"@, bcv_data(settings.bcv)), start); }
        push_event(&mut events, &mut count, "bcv", d);
        proof { acc = acc.push(("bcv"@, bcv_data(settings.bcv))); }
    }
    let ghost after_bcv = acc;
    assert(after_bcv =~= after_status + (if bcv_moved(m0.bcv, settings.bcv) || m0.first_time {
        seq![("bcv"@, bcv_data(settings.bcv))]
    } else {
        Seq::<(Seq<char>, Seq<char>)>::empty()
    }));
    // project
    let project_data_now: Option<String> = match &settings.current_project {
        Some(np) => {
            let report = match &m.current_project {
                Some(op) => !str_eq(np.source.as_str(), op.source.as_str())
                    || !str_eq(np.organization.as_str(), op.organization.as_str())
                    || !str_eq(np.project.as_str(), op.project.as_str()) || m.first_time,
                None => true,
            };
            if report {
                Some(three_parts(np.source.as_str(), np.organization.as_str(), np.project.as_str()))
            } else {
                None
            }
        },
        None => match &m.current_project {
            Some(_) => Some("null".to_owned()),
            None => None,
        },
    };
    proof { reveal_strlit("null"); }
    match project_data_now {
        Some(d) => {
            let ghost dv = d@;
            m.current_project = match &settings.current_project {
                Some(p) => Some(p.copy()),
                None => None,
            };
            proof { lemma_numbered_push(acc, ("current_project"@, dv), start); }
            push_event(&mut events, &mut count, "current_project", d);
            proof { acc = acc.push(("current_project"@, dv)); }
        },
        None => {},
    }
    let ghost after_project = acc;
    assert(after_project =~= after_bcv + match project_event_data(m0.current_project, settings.current_project, m0.first_time) {
        Some(d) => seq![("current_project"@, d)],
        None => Seq::<(Seq<char>, Seq<char>)>::empty(),
    });
    // typography
    let typo_changed = !str_eq(m.font_set.as_str(), settings.typography.font_set.as_str())
        || !str_eq(m.size.as_str(), settings.typography.size.as_str())
        || !str_eq(m.direction.as_str(), settings.typography.direction.as_str()) || m.first_time;
    if typo_changed {
        m.font_set = settings.typography.font_set.clone();
        m.size = settings.typography.size.clone();
        m.direction = settings.typography.direction.clone();
        let d = three_parts(m.font_set.as_str(), m.size.as_str(), m.direction.as_str());
        let ghost dv = d@;
        proof { lemma_numbered_push(acc, ("typography"@, dv), start); }
        push_event(&mut events, &mut count, "typography", d);
        proof { acc = acc.push(("typography"@, dv)); }
    }
    let ghost after_typo = acc;
    assert(after_typo =~= after_project + (if m0.font_set@ != settings.typography.font_set@ || m0.size@ != settings.typography.size@
        || m0.direction@ != settings.typography.direction@ || m0.first_time {
        seq![("typography"@, settings.typography.font_set@ + "--"@ + settings.typography.size@ + "--"@ + settings.typography.direction@)]
    } else {
        Seq::<(Seq<char>, Seq<char>)>::empty()
    }));
    // logins
    let ghost eps = settings.gitea_endpoints.entries();
    let ghost known0 = m0.auth_tokens@;
    let ghost now = settings.auth_tokens@;
    proof { settings.gitea_endpoints.lemma_entries(); }
    let n = settings.gitea_endpoints.len();
    let mut j: usize = 0;
    let ghost pre_loop = *m;
    while j < n
        invariant
            m.bcv == pre_loop.bcv,
            m.current_project == pre_loop.current_project,
            m.font_set == pre_loop.font_set,
            m.size == pre_loop.size,
            m.direction == pre_loop.direction,
            m.languages == pre_loop.languages,
            m.i18n_update_count == pre_loop.i18n_update_count,
            pre_loop.languages == m0.languages,
            pre_loop.i18n_update_count == m0.i18n_update_count,
            n == eps.len(),
            j <= n,
            eps == settings.gitea_endpoints.entries(),
            settings.wf(),
            forall|a: int, b: int| 0 <= a < eps.len() && 0 <= b < eps.len() && a != b ==> eps[a].0 != eps[b].0,
            logins_kept(eps, known0, now),
            now == settings.auth_tokens@,
            m.auth_tokens.wf(),
            m.auth_tokens@ == known_after(eps.take(j as int), known0, now),
            m.first_time == m0.first_time,
            start + msgs@.len() + n + 6 <= i32::MAX,
            acc.len() <= msgs@.len() + 4 + j,
            count == start + acc.len(),
            event_views(events@) == numbered(acc, start),
            acc == after_typo + auth_events(eps.take(j as int), known0, now, m0.first_time),
        decreases n - j,
    {
        let (name, ep) = settings.gitea_endpoints.entry_at(j);
        let ghost rest_before = m.auth_tokens@;
        proof {
            assert(eps.take(j + 1).drop_last() =~= eps.take(j as int));
            assert(eps.take(j + 1).last() == eps[j as int]);
            lemma_known_after_other(eps.take(j as int), known0, now, name@);
        }
        let known_has = m.auth_tokens.contains_key(name.as_str());
        let now_has = settings.auth_tokens.contains_key(name.as_str());
        if now_has != known_has {
            let v = match settings.auth_tokens.get(name.as_str()) {
                Some(v) => v.clone(),
                None => {
                    proof {
                        assert(known0.dom().contains(name@));
                        assert(known0.dom().contains(eps[j as int].0));
                    }
                    String::new()
                },
            };
            m.auth_tokens.insert(name.clone(), v);
            let d = three_parts(name.as_str(), ep.as_str(), bool_str(true));
            let ghost dv = d@;
            proof { lemma_numbered_push(acc, ("auth"@, dv), start); }
            push_event(&mut events, &mut count, "auth", d);
            proof { acc = acc.push(("auth"@, dv)); }
        } else if m.first_time {
            let d = three_parts(name.as_str(), ep.as_str(), bool_str(known_has));
            let ghost dv = d@;
            proof { lemma_numbered_push(acc, ("auth"@, dv), start); }
            push_event(&mut events, &mut count, "auth", d);
            proof { acc = acc.push(("auth"@, dv)); }
        }
        proof {
            assert(acc =~= after_typo + auth_events(eps.take(j + 1), known0, now, m0.first_time));
        }
        j += 1;
    }
    proof {
        assert(eps.take(n as int) =~= eps);
    }
    let ghost after_auth = acc;
    // languages
    let joined = join_strings(&settings.languages, "/");
    let updated = i18n > m.i18n_update_count;
    if updated {
        m.i18n_update_count = i18n;
    }
    if !str_eq(joined.as_str(), m.languages.as_str()) || m.first_time || updated {
        m.languages = joined.clone();
        let ghost dv = joined@;
        proof { lemma_numbered_push(acc, ("languages"@, dv), start); }
        push_event(&mut events, &mut count, "languages", joined);
        proof { acc = acc.push(("languages"@, dv)); }
    }
    assert(acc =~= after_auth + (if languages_text(settings.languages@) != m0.languages@ || m0.first_time || i18n > m0.i18n_update_count {
        seq![("languages"@, languages_text(settings.languages@))]
    } else {
        Seq::<(Seq<char>, Seq<char>)>::empty()
    }));
    m.first_time = false;
    m.count = count;
    proof {
        assert(queued =~= Seq::new(msgs@.len(), |k: int| ("misc"@, msgs@[k]@)));
        assert(acc =~= round_events(m0, msgs@, *settings, net, debug, i18n));
        assert(event_views(events@).len() == events@.len());
    }
    events
}


proof fn lemma_known_after_matches(
    eps: Seq<(Seq<char>, String)>,
    known: Map<Seq<char>, String>,
    now: Map<Seq<char>, String>,
)
    requires
        logins_kept(eps, known, now),
        forall|a: int, b: int| 0 <= a < eps.len() && 0 <= b < eps.len() && a != b ==> eps[a].0 != eps[b].0,
    ensures
        forall|i: int| 0 <= i < eps.len() ==> known_after(eps, known, now).dom().contains(#[trigger] eps[i].0)
            == now.dom().contains(eps[i].0),
    decreases eps.len(),
{
    if eps.len() > 0 {
        let init = eps.drop_last();
        assert(logins_kept(init, known, now)) by {
            assert forall|i: int| 0 <= i < init.len() && known.dom().contains(#[trigger] init[i].0) implies now.dom().contains(init[i].0) by {
                assert(init[i] == eps[i]);
            }
        }
        lemma_known_after_matches(init, known, now);
        let k = eps.last().0;
        assert(eps.last() == eps[eps.len() - 1]);
        assert forall|i: int| 0 <= i < init.len() implies (#[trigger] init[i]).0 != k by {
            assert(init[i] == eps[i]);
        }
        lemma_known_after_other(init, known, now, k);
        assert forall|i: int| 0 <= i < eps.len() implies known_after(eps, known, now).dom().contains(#[trigger] eps[i].0)
            == now.dom().contains(eps[i].0) by {
            if i < eps.len() - 1 {
                assert(init[i] == eps[i]);
                assert(eps[i].0 != k);
            } else {
                if known.dom().contains(k) {
                    assert(known.dom().contains(eps[eps.len() - 1].0));
                }
            }
        }
    }
}

proof fn lemma_auth_quiet(
    eps: Seq<(Seq<char>, String)>,
    known: Map<Seq<char>, String>,
    now: Map<Seq<char>, String>,
)
    requires
        forall|i: int| 0 <= i < eps.len() ==> known.dom().contains(#[trigger] eps[i].0) == now.dom().contains(eps[i].0),
    ensures
        auth_events(eps, known, now, false) == Seq::<(Seq<char>, Seq<char>)>::empty(),
    decreases eps.len(),
{
    if eps.len() > 0 {
        let init = eps.drop_last();
        assert forall|i: int| 0 <= i < init.len() implies known.dom().contains(#[trigger] init[i].0) == now.dom().contains(init[i].0) by {
            assert(init[i] == eps[i]);
        }
        lemma_auth_quiet(init, known, now);
        assert(eps.last() == eps[eps.len() - 1]);
    }
}

/// A round announces the languages whenever they differ from those the
/// stream last reported (a reordering included), on the first round, and
/// after the translations were updated: its last event is then
/// `languages` with the languages joined by `/`.
pub proof fn law_language_change_announced(
    m: StreamMemory,
    msgs: Seq<String>,
    s: AppSettings,
    net: bool,
    debug: bool,
    i18n: u64,
)
    ensures
        (languages_text(s.languages@) != m.languages@ || m.first_time || i18n > m.i18n_update_count) ==> {
            let ev = round_events(m, msgs, s, net, debug, i18n);
            ev.len() > 0 && ev.last() == ("languages"@, languages_text(s.languages@))
        },
        languages_text(s.languages@) != m.languages@ ==> round_events(m, msgs, s, net, debug, i18n).contains(
            ("languages"@, languages_text(s.languages@)),
        ),
{
    let ev = round_events(m, msgs, s, net, debug, i18n);
    if languages_text(s.languages@) != m.languages@ || m.first_time || i18n > m.i18n_update_count {
        assert(ev[ev.len() - 1] == ("languages"@, languages_text(s.languages@)));
    }
}

proof fn lemma_auth_event_kinds(
    endpoints: Seq<(Seq<char>, String)>,
    known: Map<Seq<char>, String>,
    now: Map<Seq<char>, String>,
    first: bool,
)
    ensures
        forall|i: int| 0 <= i < auth_events(endpoints, known, now, first).len()
            ==> (#[trigger] auth_events(endpoints, known, now, first)[i]).0 == "auth"@,
    decreases endpoints.len(),
{
    if endpoints.len() > 0 {
        lemma_auth_event_kinds(endpoints.drop_last(), known, now, first);
        let rest = auth_events(endpoints.drop_last(), known, now, first);
        let all = auth_events(endpoints, known, now, first);
        assert forall|i: int| 0 <= i < all.len() implies (#[trigger] all[i]).0 == "auth"@ by {
            if i < rest.len() {
                assert(all[i] == rest[i]);
            }
        }
    }
}

/// A round announces the languages only when they changed, on the first
/// round, or after the translations were updated: otherwise no event of the
/// round is a `languages` event.
pub proof fn law_languages_announced_only_on_change(
    m: StreamMemory,
    msgs: Seq<String>,
    s: AppSettings,
    net: bool,
    debug: bool,
    i18n: u64,
)
    requires
        languages_text(s.languages@) == m.languages@,
        !m.first_time,
        i18n <= m.i18n_update_count,
    ensures
        forall|i: int| 0 <= i < round_events(m, msgs, s, net, debug, i18n).len()
            ==> (#[trigger] round_events(m, msgs, s, net, debug, i18n)[i]).0 != "languages"@,
{
    reveal_strlit("languages");
    reveal_strlit("misc");
    reveal_strlit("status");
    reveal_strlit("bcv");
    reveal_strlit("current_project");
    reveal_strlit("typography");
    reveal_strlit("auth");
    let ev = round_events(m, msgs, s, net, debug, i18n);
    lemma_auth_event_kinds(s.gitea_endpoints.entries(), m.auth_tokens@, s.auth_tokens@, m.first_time);
    let auth = auth_events(s.gitea_endpoints.entries(), m.auth_tokens@, s.auth_tokens@, m.first_time);
    assert forall|i: int| 0 <= i < ev.len() implies (#[trigger] ev[i]).0 != "languages"@ by {
        let k = ev[i].0;
        assert(k == "misc"@ || k == "status"@ || k == "bcv"@ || k == "current_project"@ || k == "typography"@
            || k == "auth"@) by {
            let queued = Seq::new(msgs.len(), |j: int| ("misc"@, msgs[j]@));
            let n0 = queued.len();
            let rest = ev.subrange(n0 as int, ev.len() as int);
            if i < n0 {
                assert(ev[i] == queued[i]);
            } else if i >= ev.len() - auth.len() {
                assert(ev[i] == auth[i - (ev.len() - auth.len())]);
            }
        }
        assert("languages"@ != "misc"@ && "languages"@ != "status"@ && "languages"@ != "bcv"@
            && "languages"@ != "current_project"@ && "languages"@ != "typography"@ && "languages"@ != "auth"@) by {
            assert("languages"@.len() != "misc"@.len());
            assert("languages"@.len() != "status"@.len());
            assert("languages"@.len() != "bcv"@.len());
            assert("languages"@.len() != "current_project"@.len());
            assert("languages"@[0] != "typography"@[0]);
            assert("languages"@.len() != "auth"@.len());
        }
    }
}

/// A stream settles: once a round has reported the server state, a round
/// over the same state with no queued message reports the status alone.
/// `after` is the memory that `stream_round` leaves after a round over
/// `s` from `before`.
pub proof fn law_quiet_after_round(
    before: StreamMemory,
    after: StreamMemory,
    s: AppSettings,
    i18n: u64,
    net: bool,
    debug: bool,
)
    requires
        s.wf(),
        logins_kept(s.gitea_endpoints.entries(), before.auth_tokens@, s.auth_tokens@),
        !after.first_time,
        after.auth_tokens@ == known_after(s.gitea_endpoints.entries(), before.auth_tokens@, s.auth_tokens@),
        after.bcv == (if bcv_moved(before.bcv, s.bcv) || before.first_time { s.bcv } else { before.bcv }),
        after.current_project == (if project_event_data(before.current_project, s.current_project, before.first_time) is Some {
            s.current_project
        } else {
            before.current_project
        }),
        (before.font_set@ != s.typography.font_set@ || before.size@ != s.typography.size@
            || before.direction@ != s.typography.direction@ || before.first_time) ==> (
            after.font_set == s.typography.font_set && after.size == s.typography.size
                && after.direction == s.typography.direction),
        !(before.font_set@ != s.typography.font_set@ || before.size@ != s.typography.size@
            || before.direction@ != s.typography.direction@ || before.first_time) ==> (
            after.font_set == before.font_set && after.size == before.size && after.direction == before.direction),
        after.languages@ == (if languages_text(s.languages@) != before.languages@ || before.first_time
            || i18n > before.i18n_update_count { languages_text(s.languages@) } else { before.languages@ }),
        after.i18n_update_count == (if i18n > before.i18n_update_count { i18n } else { before.i18n_update_count }),
    ensures
        round_events(after, Seq::empty(), s, net, debug, i18n) == seq![("status"@, status_data(net, debug))],
{
    let eps = s.gitea_endpoints.entries();
    s.gitea_endpoints.lemma_entries();
    lemma_known_after_matches(eps, before.auth_tokens@, s.auth_tokens@);
    lemma_auth_quiet(eps, after.auth_tokens@, s.auth_tokens@);
    assert(!bcv_moved(after.bcv, s.bcv));
    assert(project_event_data(after.current_project, s.current_project, false) is None) by {
        match s.current_project {
            Some(np) => {
                if after.current_project == s.current_project {
                    assert(!project_differs(np, np));
                }
            },
            None => {},
        }
    }
    let ev = round_events(after, Seq::empty(), s, net, debug, i18n);
    assert(ev =~= seq![("status"@, status_data(net, debug))]);
}

} // verus!
