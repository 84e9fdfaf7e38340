//! Active symptoms: the signals recent elevated journal events carry —
//! probe names and their keywords, skill IDs, indicator words of the
//! summaries, and keywords of self-vitals — sorted and deduplicated.

use vstd::prelude::*;
use crate::event::Severity;
use crate::journal::EventRow;
use crate::lex::{sort_unique, strictly_sorted_texts};
use crate::meta::sanitizer::byte_len;
use crate::skill::strings_view;
use crate::text::{
    chars_of, contains_seq, starts_with_seq, str_contains, str_eq, str_starts_with, string_from_chars,
    strs_view, to_lowercase, unicode_lowercase,
};

verus! {

/// The pieces of `s` between the occurrences of `c` (`str::split`):
/// one more piece than there are `c`s, empty ones included.
pub open spec fn split_pieces(s: Seq<char>, c: char) -> Seq<Seq<char>>
    decreases s.len(),
{
    if s.len() == 0 {
        seq![Seq::empty()]
    } else {
        let p = split_pieces(s.drop_last(), c);
        if s.last() == c {
            p.push(Seq::empty())
        } else {
            p.update(p.len() - 1, p.last().push(s.last()))
        }
    }
}

proof fn lemma_split_pieces_nonempty(s: Seq<char>, c: char)
    ensures
        split_pieces(s, c).len() >= 1,
    decreases s.len(),
{
    if s.len() > 0 {
        lemma_split_pieces_nonempty(s.drop_last(), c);
    }
}

/// Words too generic to be keywords.
pub open spec fn noise_words() -> Seq<Seq<char>> {
    seq!["used"@, "pct"@, "mib"@, "avg"@, "max"@, "min"@, "total"@, "count"@, "the"@, "last"@, "run"@]
}

fn noise_list() -> (r: Vec<&'static str>)
    ensures
        strs_view(r@) == noise_words(),
{
    let v = vec!["used", "pct", "mib", "avg", "max", "min", "total", "count", "the", "last", "run"];
    proof {
        assert(strs_view(v@) =~= noise_words());
    }
    v
}

/// A piece is a keyword when it is at least three bytes long and not a
/// noise word.
pub open spec fn is_keyword(k: Seq<char>) -> bool {
    byte_len(k) >= 3 && !noise_words().contains(k)
}

/// The keywords among the first `n` pieces, in order.
pub open spec fn kept_keywords(ps: Seq<Seq<char>>, n: int) -> Seq<Seq<char>>
    decreases n,
{
    if n <= 0 {
        Seq::empty()
    } else if is_keyword(ps[n - 1]) {
        kept_keywords(ps, n - 1).push(ps[n - 1])
    } else {
        kept_keywords(ps, n - 1)
    }
}

/// The keywords of a probe or vital name: its `_`-separated pieces that
/// are keywords.
pub open spec fn keywords_of(name: Seq<char>) -> Seq<Seq<char>> {
    let ps = split_pieces(name, '_');
    kept_keywords(ps, ps.len() as int)
}

/// Indicator words looked for in event summaries.
pub open spec fn indicator_words() -> Seq<Seq<char>> {
    seq![
        "oom"@, "swap"@, "gpu"@, "vram"@, "timeout"@, "stall"@, "degraded"@, "slow"@, "zombie"@, "pressure"@,
        "exhaustion"@, "drift"@, "skew"@, "bloat"@, "corruption"@,
    ]
}

fn indicator_list() -> (r: Vec<&'static str>)
    ensures
        strs_view(r@) == indicator_words(),
{
    let v = vec![
        "oom", "swap", "gpu", "vram", "timeout", "stall", "degraded", "slow", "zombie", "pressure", "exhaustion",
        "drift", "skew", "bloat", "corruption",
    ];
    proof {
        assert(strs_view(v@) =~= indicator_words());
    }
    v
}

/// The indicator words among the first `n` that occur in `low`, in list
/// order.
pub open spec fn indicators_in(low: Seq<char>, n: int) -> Seq<Seq<char>>
    decreases n,
{
    if n <= 0 {
        Seq::empty()
    } else if contains_seq(low, indicator_words()[n - 1]) {
        indicators_in(low, n - 1).push(indicator_words()[n - 1])
    } else {
        indicators_in(low, n - 1)
    }
}

/// Whether a severity is elevated (warn, alert or crit).
pub open spec fn elevated(s: Severity) -> bool {
    s != Severity::Info
}

/// The signals of an event's module: the probe of a sentinel threshold
/// or rate event with its keywords, or the skill of a skill event.
pub open spec fn module_signals(module: Option<String>) -> Seq<Seq<char>> {
    match module {
        Some(m) => if starts_with_seq(m@, "sentinel/threshold/"@) {
            seq![m@.skip(19)] + keywords_of(m@.skip(19))
        } else if starts_with_seq(m@, "sentinel/rate/"@) {
            seq![m@.skip(14)] + keywords_of(m@.skip(14))
        } else if starts_with_seq(m@, "skill/"@) {
            seq![m@.skip(6)]
        } else {
            Seq::empty()
        },
        None => Seq::empty(),
    }
}

/// The indicator words of an event's summary, looked for in its
/// lowercase form.
pub open spec fn summary_signals(summary: Option<String>) -> Seq<Seq<char>> {
    match summary {
        Some(s) => indicators_in(unicode_lowercase(s@), 15),
        None => Seq::empty(),
    }
}

/// The keywords of a self-vital event's `proprio/` module.
pub open spec fn vital_signals(tier: Option<String>, module: Option<String>) -> Seq<Seq<char>> {
    match (tier, module) {
        (Some(t), Some(m)) => if t@ == "self_vital"@ && starts_with_seq(m@, "proprio/"@) {
            keywords_of(m@.skip(8))
        } else {
            Seq::empty()
        },
        _ => Seq::empty(),
    }
}

/// Everything one event signals: nothing unless it is elevated.
pub open spec fn event_signals(e: EventRow) -> Seq<Seq<char>> {
    if elevated(e.severity) {
        module_signals(e.module) + summary_signals(e.summary) + vital_signals(e.tier, e.module)
    } else {
        Seq::empty()
    }
}

/// Everything the first `n` events signal.
pub open spec fn all_signals(es: Seq<EventRow>, n: int) -> Seq<Seq<char>>
    decreases n,
{
    if n <= 0 { Seq::empty() } else { all_signals(es, n - 1) + event_signals(es[n - 1]) }
}

fn push_text(out: &mut Vec<String>, t: Vec<char>)
    ensures
        strings_view(final(out)@) == strings_view(old(out)@).push(t@),
{
    let ghost before = out@;
    let s = string_from_chars(&t);
    out.push(s);
    proof {
        assert(strings_view(out@) =~= strings_view(before).push(t@));
    }
}

/// The pieces of `s` between the `c`s.
fn split_on(s: &Vec<char>, c: char) -> (r: Vec<Vec<char>>)
    ensures
        Seq::new(r@.len(), |i: int| r@[i]@) == split_pieces(s@, c),
{
    let mut out: Vec<Vec<char>> = Vec::new();
    out.push(Vec::new());
    let mut i: usize = 0;
    proof {
        assert(s@.take(0) =~= Seq::<char>::empty());
        assert(Seq::new(out@.len(), |k: int| out@[k]@) =~= seq![Seq::<char>::empty()]);
    }
    while i < s.len()
        invariant
            i <= s@.len(),
            out@.len() >= 1,
            Seq::new(out@.len(), |k: int| out@[k]@) == split_pieces(s@.take(i as int), c),
        decreases s@.len() - i,
    {
        let ghost before = Seq::new(out@.len(), |k: int| out@[k]@);
        proof {
            assert(s@.take(i + 1).drop_last() =~= s@.take(i as int));
            assert(s@.take(i + 1).last() == s@[i as int]);
        }
        if s[i] == c {
            out.push(Vec::new());
            proof {
                assert(Seq::new(out@.len(), |k: int| out@[k]@) =~= before.push(Seq::empty()));
            }
        } else {
            let last = out.len() - 1;
            let mut piece = out.remove(last);
            let ghost p0 = piece@;
            piece.push(s[i]);
            out.push(piece);
            proof {
                assert(Seq::new(out@.len(), |k: int| out@[k]@) =~= before.update(before.len() - 1, p0.push(s@[i as int])));
            }
        }
        i = i + 1;
    }
    proof {
        assert(s@.take(s@.len() as int) =~= s@);
    }
    out
}

fn is_noise(k: &str) -> (r: bool)
    ensures
        r == noise_words().contains(k@),
{
    let list = noise_list();
    let mut i: usize = 0;
    while i < list.len()
        invariant
            i <= list@.len(),
            strs_view(list@) == noise_words(),
            forall|j: int| 0 <= j < i ==> noise_words()[j] != k@,
        decreases list@.len() - i,
    {
        if str_eq(list[i], k) {
            proof {
                assert(noise_words()[i as int] == k@);
            }
            return true;
        }
        i = i + 1;
    }
    false
}

/// Push the keywords of `name`.
fn extract_keywords(name: &Vec<char>, out: &mut Vec<String>)
    ensures
        strings_view(final(out)@) == strings_view(old(out)@) + keywords_of(name@),
{
    let pieces = split_on(name, '_');
    let ghost ps = Seq::new(pieces@.len(), |i: int| pieces@[i]@);
    let ghost o0 = strings_view(out@);
    let mut i: usize = 0;
    while i < pieces.len()
        invariant
            i <= pieces@.len(),
            ps == Seq::new(pieces@.len(), |i: int| pieces@[i]@),
            ps == split_pieces(name@, '_'),
            strings_view(out@) == o0 + kept_keywords(ps, i as int),
        decreases pieces@.len() - i,
    {
        let k = string_from_chars(&pieces[i]);
        let keep = k.as_str().len() >= 3 && !is_noise(k.as_str());
        proof {
            assert(ps[i as int] == k@);
        }
        if keep {
            let ghost before = strings_view(out@);
            out.push(k);
            proof {
                assert(strings_view(out@) =~= before.push(ps[i as int]));
            }
        }
        i = i + 1;
    }
}

/// Push what the module of an event signals.
fn push_module_signals(module: &Option<String>, out: &mut Vec<String>)
    ensures
        strings_view(final(out)@) == strings_view(old(out)@) + module_signals(*module),
{
    let ghost o0 = strings_view(out@);
    match module {
        Some(m) => {
            let cs = chars_of(m.as_str());
            proof {
                reveal_strlit("sentinel/threshold/");
                reveal_strlit("sentinel/rate/");
                reveal_strlit("skill/");
            }
            if str_starts_with(m.as_str(), "sentinel/threshold/") {
                let probe = crate::text::slice_chars(&cs, 19, cs.len());
                proof {
                    assert(probe@ =~= m@.skip(19));
                }
                push_text(out, probe.clone());
                extract_keywords(&probe, out);
                proof {
                    assert(strings_view(out@) =~= o0 + module_signals(*module));
                }
            } else if str_starts_with(m.as_str(), "sentinel/rate/") {
                let probe = crate::text::slice_chars(&cs, 14, cs.len());
                proof {
                    assert(probe@ =~= m@.skip(14));
                }
                push_text(out, probe.clone());
                extract_keywords(&probe, out);
                proof {
                    assert(strings_view(out@) =~= o0 + module_signals(*module));
                }
            } else if str_starts_with(m.as_str(), "skill/") {
                let id = crate::text::slice_chars(&cs, 6, cs.len());
                proof {
                    assert(id@ =~= m@.skip(6));
                }
                push_text(out, id);
                proof {
                    assert(strings_view(out@) =~= o0 + module_signals(*module));
                }
            } else {
                proof {
                    assert(strings_view(out@) =~= o0 + module_signals(*module));
                }
            }
        },
        None => {
            proof {
                assert(strings_view(out@) =~= o0 + module_signals(*module));
            }
        },
    }
}

/// Push the indicator words a summary holds.
fn push_summary_signals(summary: &Option<String>, out: &mut Vec<String>)
    ensures
        strings_view(final(out)@) == strings_view(old(out)@) + summary_signals(*summary),
{
    let ghost o0 = strings_view(out@);
    match summary {
        Some(s) => {
            let lower = to_lowercase(s.as_str());
            let words = indicator_list();
            let mut k: usize = 0;
            while k < words.len()
                invariant
                    k <= words@.len(),
                    strs_view(words@) == indicator_words(),
                    lower@ == unicode_lowercase(s@),
                    strings_view(out@) == o0 + indicators_in(lower@, k as int),
                decreases words@.len() - k,
            {
                let w = words[k];
                if str_contains(lower.as_str(), w) {
                    let ghost before = strings_view(out@);
                    out.push(w.to_owned());
                    proof {
                        assert(strings_view(out@) =~= before.push(indicator_words()[k as int]));
                    }
                }
                k = k + 1;
            }
            proof {
                assert(indicator_words().len() == 15);
                assert(words@.len() == 15);
            }
        },
        None => {
            proof {
                assert(strings_view(out@) =~= o0 + summary_signals(*summary));
            }
        },
    }
}

/// Push the keywords of a self-vital event.
fn push_vital_signals(tier: &Option<String>, module: &Option<String>, out: &mut Vec<String>)
    ensures
        strings_view(final(out)@) == strings_view(old(out)@) + vital_signals(*tier, *module),
{
    let ghost o0 = strings_view(out@);
    match (tier, module) {
        (Some(t), Some(m)) => {
            proof {
                reveal_strlit("proprio/");
            }
            if str_eq(t.as_str(), "self_vital") && str_starts_with(m.as_str(), "proprio/") {
                let cs = chars_of(m.as_str());
                let vital = crate::text::slice_chars(&cs, 8, cs.len());
                proof {
                    assert(vital@ =~= m@.skip(8));
                }
                extract_keywords(&vital, out);
            } else {
                proof {
                    assert(strings_view(out@) =~= o0 + vital_signals(*tier, *module));
                }
            }
        },
        _ => {
            proof {
                assert(strings_view(out@) =~= o0 + vital_signals(*tier, *module));
            }
        },
    }
}

/// The active symptoms recent events signal, sorted, each once: for
/// every warn-or-worse event, the probe of a `sentinel/threshold/` or
/// `sentinel/rate/` module and that probe's keywords, the skill of a
/// `skill/` module, the indicator words its lowercase summary holds,
/// and for a `self_vital` event the keywords of its `proprio/` vital.
pub fn derive_active_symptoms(events: &[EventRow]) -> (r: Vec<String>)
    ensures
        strictly_sorted_texts(strings_view(r@)),
        strings_view(r@).to_set() == all_signals(events@, events@.len() as int).to_set(),
{
    let mut symptoms: Vec<String> = Vec::new();
    let mut i: usize = 0;
    while i < events.len()
        invariant
            i <= events@.len(),
            strings_view(symptoms@) == all_signals(events@, i as int),
        decreases events@.len() - i,
    {
        let ev = &events[i];
        let ghost s0 = strings_view(symptoms@);
        match ev.severity {
            Severity::Info => {
                proof {
                    assert(strings_view(symptoms@) =~= s0 + event_signals(*ev));
                }
            },
            _ => {
                push_module_signals(&ev.module, &mut symptoms);
                push_summary_signals(&ev.summary, &mut symptoms);
                push_vital_signals(&ev.tier, &ev.module, &mut symptoms);
                proof {
                    assert(strings_view(symptoms@) =~= s0 + event_signals(*ev));
                }
            },
        }
        i = i + 1;
    }
    sort_unique(&symptoms)
}


// ─── relevance of knowledge to the active symptoms ───────────

/// A skill symptom matches an active symptom when they are equal, when
/// either contains the other, or when a `_`-separated piece of the skill
/// symptom at least three bytes long occurs in the active one.
pub open spec fn symptom_matches(skill_sym: Seq<char>, active: Seq<char>) -> bool {
    skill_sym == active || contains_seq(skill_sym, active) || contains_seq(active, skill_sym)
        || exists|k: int| 0 <= k < split_pieces(skill_sym, '_').len()
            && byte_len(#[trigger] split_pieces(skill_sym, '_')[k]) >= 3
            && contains_seq(active, split_pieces(skill_sym, '_')[k])
}

/// A skill symptom matches some active symptom.
pub open spec fn matches_any(skill_sym: Seq<char>, active: Seq<Seq<char>>) -> bool {
    exists|j: int| 0 <= j < active.len() && symptom_matches(skill_sym, #[trigger] active[j])
}

/// How many of the first `n` skill symptoms match some active symptom.
pub open spec fn overlap_count(skill: Seq<Seq<char>>, active: Seq<Seq<char>>, n: int) -> nat
    decreases n,
{
    if n <= 0 {
        0
    } else {
        overlap_count(skill, active, n - 1) + if matches_any(skill[n - 1], active) { 1nat } else { 0nat }
    }
}

fn piece_occurs(sym: &Vec<char>, active: &Vec<char>) -> (r: bool)
    ensures
        r == exists|k: int| 0 <= k < split_pieces(sym@, '_').len()
            && byte_len(#[trigger] split_pieces(sym@, '_')[k]) >= 3
            && contains_seq(active@, split_pieces(sym@, '_')[k]),
{
    let pieces = split_on(sym, '_');
    let ghost ps = split_pieces(sym@, '_');
    let mut i: usize = 0;
    while i < pieces.len()
        invariant
            i <= pieces@.len(),
            Seq::new(pieces@.len(), |k: int| pieces@[k]@) == ps,
            ps == split_pieces(sym@, '_'),
            forall|k: int| 0 <= k < i ==> !(byte_len(#[trigger] ps[k]) >= 3 && contains_seq(active@, ps[k])),
        decreases pieces@.len() - i,
    {
        proof {
            assert(ps[i as int] == pieces@[i as int]@);
        }
        let k = string_from_chars(&pieces[i]);
        if k.as_str().len() >= 3 && crate::text::contains_chars(active, &pieces[i]) {
            return true;
        }
        i = i + 1;
    }
    false
}

fn symptom_match(sym: &str, active: &str) -> (r: bool)
    ensures
        r == symptom_matches(sym@, active@),
{
    if str_eq(sym, active) {
        return true;
    }
    let s = chars_of(sym);
    let a = chars_of(active);
    if crate::text::contains_chars(&s, &a) || crate::text::contains_chars(&a, &s) {
        return true;
    }
    piece_occurs(&s, &a)
}

/// How many of a skill's symptoms match some active symptom, by
/// equality, containment either way, or a keyword of three bytes or
/// more of the skill symptom occurring in the active one.
pub fn symptom_overlap(skill_symptoms: &[String], active_symptoms: &[String]) -> (r: usize)
    ensures
        r == overlap_count(strings_view(skill_symptoms@), strings_view(active_symptoms@), skill_symptoms@.len() as int),
{
    let ghost sk = strings_view(skill_symptoms@);
    let ghost ac = strings_view(active_symptoms@);
    let mut count: usize = 0;
    let mut i: usize = 0;
    while i < skill_symptoms.len()
        invariant
            i <= skill_symptoms@.len(),
            sk == strings_view(skill_symptoms@),
            ac == strings_view(active_symptoms@),
            count == overlap_count(sk, ac, i as int),
            count <= i,
        decreases skill_symptoms@.len() - i,
    {
        let sym = skill_symptoms[i].as_str();
        let mut found = false;
        let mut j: usize = 0;
        while j < active_symptoms.len()
            invariant
                i < skill_symptoms@.len(),
                j <= active_symptoms@.len(),
                sk == strings_view(skill_symptoms@),
                ac == strings_view(active_symptoms@),
                sym@ == sk[i as int],
                found == exists|m: int| 0 <= m < j && symptom_matches(sk[i as int], #[trigger] ac[m]),
            decreases active_symptoms@.len() - j,
        {
            let m = symptom_match(sym, active_symptoms[j].as_str());
            proof {
                assert(ac[j as int] == active_symptoms@[j as int]@);
            }
            found = found || m;
            j = j + 1;
        }
        if found {
            count = count + 1;
        }
        i = i + 1;
    }
    count
}

} // verus!
