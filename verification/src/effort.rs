//! How hard a model should think.
//!
//! The level belongs to the session, or to the job a member was given, and not to the
//! model that happens to be mounted.
use crate::data::{none_of, put, Dup};
use crate::json;
use crate::json::Json;
use crate::text;
use crate::text::{among, join, lit, same, trim};
use vstd::prelude::*;

verus! {

/// The ladder of levels.
#[derive(Clone, Copy, Debug, PartialEq, Eq, Structural)]
pub enum ReasoningEffort {
    Low,
    Medium,
    High,
    XHigh,
    Max,
}

impl DeepView for ReasoningEffort {
    type V = ReasoningEffort;

    open spec fn deep_view(&self) -> ReasoningEffort {
        *self
    }
}

impl Dup for ReasoningEffort {
    fn dup(&self) -> (r: Self) {
        *self
    }
}

pub open spec fn level_name(e: ReasoningEffort) -> Seq<char> {
    match e {
        ReasoningEffort::Low => "low"@,
        ReasoningEffort::Medium => "medium"@,
        ReasoningEffort::High => "high"@,
        ReasoningEffort::XHigh => "xhigh"@,
        ReasoningEffort::Max => "max"@,
    }
}

/// The names of the levels, weakest first.
pub open spec fn level_names() -> Seq<Seq<char>> {
    seq!["low"@, "medium"@, "high"@, "xhigh"@, "max"@]
}

/// The level a configured text names; any other text is no opinion.
pub open spec fn configured(s: Option<Seq<char>>) -> Option<ReasoningEffort> {
    match s {
        None => None,
        Some(t) => {
            let t = text::trimmed(t);
            if t == "low"@ {
                Some(ReasoningEffort::Low)
            } else if t == "medium"@ {
                Some(ReasoningEffort::Medium)
            } else if t == "high"@ {
                Some(ReasoningEffort::High)
            } else if t == "xhigh"@ {
                Some(ReasoningEffort::XHigh)
            } else if t == "max"@ {
                Some(ReasoningEffort::Max)
            } else {
                None
            }
        },
    }
}

impl ReasoningEffort {
    pub fn as_str(self) -> (r: &'static str)
        ensures
            r@ == level_name(self),
    {
        match self {
            ReasoningEffort::Low => "low",
            ReasoningEffort::Medium => "medium",
            ReasoningEffort::High => "high",
            ReasoningEffort::XHigh => "xhigh",
            ReasoningEffort::Max => "max",
        }
    }

    pub fn from_config(s: Option<&str>) -> (r: Option<ReasoningEffort>)
        ensures
            r == configured(
                match s {
                    Some(t) => Some(t@),
                    None => None,
                },
            ),
    {
        match s {
            None => None,
            Some(t) => {
                let t = trim(t);
                if same(t, "low") {
                    Some(ReasoningEffort::Low)
                } else if same(t, "medium") {
                    Some(ReasoningEffort::Medium)
                } else if same(t, "high") {
                    Some(ReasoningEffort::High)
                } else if same(t, "xhigh") {
                    Some(ReasoningEffort::XHigh)
                } else if same(t, "max") {
                    Some(ReasoningEffort::Max)
                } else {
                    None
                }
            },
        }
    }
}

pub fn levels() -> (out: Vec<String>)
    ensures
        out.deep_view() == level_names(),
{
    let mut out: Vec<String> = none_of();
    put(&mut out, lit("low"));
    put(&mut out, lit("medium"));
    put(&mut out, lit("high"));
    put(&mut out, lit("xhigh"));
    put(&mut out, lit("max"));
    assert(out.deep_view() =~= level_names());
    out
}

/// The row's settings.
#[derive(Debug, PartialEq, Eq)]
pub struct EffortRow {
    /// Unset is no opinion.
    pub level: Option<String>,
}

impl EffortRow {
    /// The settings in a configuration: `level` where it is a string.
    pub fn of(config: &Json) -> (row: EffortRow)
        ensures
            row.level.deep_view() == json::text_under(config.deep_view(), "level"@),
    {
        EffortRow { level: config.text_at("level") }
    }

    /// The level the row writes onto requests; none where it says nothing it
    /// understands.
    pub fn effort(&self) -> (r: Option<ReasoningEffort>)
        ensures
            r == configured(self.level.deep_view()),
    {
        match &self.level {
            Some(l) => ReasoningEffort::from_config(Some(l.as_str())),
            None => None,
        }
    }
}
/// The level a request goes out with, where `level` is the one to use otherwise.
pub open spec fn filled(
    requested: Option<ReasoningEffort>,
    level: ReasoningEffort,
) -> Option<ReasoningEffort> {
    match requested {
        Some(own) => Some(own),
        None => Some(level),
    }
}

/// A session's level fills in where a request states none.
pub fn fill(requested: Option<ReasoningEffort>, level: ReasoningEffort) -> (r: Option<
    ReasoningEffort,
>)
    ensures
        r == filled(requested, level),
{
    match requested {
        Some(own) => Some(own),
        None => Some(level),
    }
}

/// What a catalog says of a model.
#[derive(Debug, PartialEq, Eq)]
pub struct Offer {
    pub id: String,
    /// The levels it accepts; empty where nothing was said.
    pub effort_levels: Vec<String>,
}

pub open spec fn given(s: Option<Seq<char>>) -> Option<Seq<char>> {
    match s {
        Some(t) => if text::trimmed(t).len() == 0 {
            None
        } else {
            Some(text::trimmed(t))
        },
        None => None,
    }
}

/// What a text says once the white space around it is gone; nothing where that is all
/// there was.
pub fn said(s: Option<&str>) -> (r: Option<String>)
    ensures
        r.deep_view() == given(
            match s {
                Some(t) => Some(t@),
                None => None,
            },
        ),
{
    match s {
        Some(t) => {
            let t = trim(t);
            if t.is_empty() {
                None
            } else {
                Some(lit(t))
            }
        },
        None => None,
    }
}

/// The levels the model accepts, as far as the catalog says.
pub open spec fn accepted(offers: Seq<(Seq<char>, Seq<Seq<char>>)>, id: Seq<char>) -> Seq<Seq<char>>
    decreases offers.len(),
{
    if offers.len() == 0 {
        Seq::empty()
    } else if offers[0].0 == id {
        offers[0].1
    } else {
        accepted(offers.skip(1), id)
    }
}

/// A catalog: the models on offer, and the one this conversation runs on.
pub open spec fn offers_of(models: Seq<Offer>) -> Seq<(Seq<char>, Seq<Seq<char>>)> {
    Seq::new(models.len(), |i: int| (models[i].id@, models[i].effort_levels.deep_view()))
}

pub open spec fn no_such_level(asked: Seq<char>) -> Seq<char> {
    "`"@ + asked + "` is not a thinking level; use one of: "@ + text::joined(level_names(), ", "@)
}

pub open spec fn not_taken(target: Seq<char>, asked: Seq<char>, levels: Seq<Seq<char>>) -> Seq<char> {
    "`"@ + target + "` does not take `"@ + asked + "`; it accepts: "@ + text::joined(levels, ", "@)
}

/// The level a delegated child runs at: none where none was asked for, an error where
/// it is no level or the model it will run on does not take it. `catalog` is empty
/// where there is none.
pub open spec fn child_effort(
    catalog: Option<(Option<Seq<char>>, Seq<(Seq<char>, Seq<Seq<char>>)>)>,
    on: Option<Seq<char>>,
    effort: Option<Seq<char>>,
) -> Result<Option<ReasoningEffort>, Seq<char>> {
    match given(effort) {
        None => Ok(None),
        Some(asked) => match configured(Some(asked)) {
            None => Err(no_such_level(asked)),
            Some(level) => match catalog {
                None => Ok(Some(level)),
                Some((current, offers)) => {
                    let target = match given(on) {
                        Some(named) => Some(named),
                        None => current,
                    };
                    match target {
                        None => Ok(Some(level)),
                        Some(target) => {
                            let levels = accepted(offers, target);
                            if levels.len() > 0 && !levels.contains(level_name(level)) {
                                Err(not_taken(target, asked, levels))
                            } else {
                                Ok(Some(level))
                            }
                        },
                    }
                },
            },
        },
    }
}

pub open spec fn effort_view(r: Result<Option<ReasoningEffort>, String>) -> Result<
    Option<ReasoningEffort>,
    Seq<char>,
> {
    match r {
        Ok(e) => Ok(e),
        Err(e) => Err(e@),
    }
}

fn find_levels(models: &Vec<Offer>, id: &str) -> (r: Vec<String>)
    ensures
        r.deep_view() == accepted(offers_of(models@), id@),
{
    let ghost all = offers_of(models@);
    let mut i: usize = 0;
    assert(all.skip(0) =~= all);
    while i < models.len()
        invariant
            i <= models.len(),
            all == offers_of(models@),
            accepted(all, id@) == accepted(all.skip(i as int), id@),
        decreases models.len() - i,
    {
        assert(all.skip(i as int)[0] == (models@[i as int].id@, models@[i as int].effort_levels.deep_view()));
        assert(all.skip(i as int).skip(1) =~= all.skip(i + 1));
        if same(models[i].id.as_str(), id) {
            return models[i].effort_levels.dup();
        }
        i = i + 1;
    }
    assert(all.skip(i as int).len() == 0);
    none_of()
}

/// The models on offer, and the one this conversation runs on.
#[derive(Debug, PartialEq, Eq)]
pub struct Offers {
    pub current: Option<String>,
    pub models: Vec<Offer>,
}

pub open spec fn catalog_view(c: Option<Offers>) -> Option<
    (Option<Seq<char>>, Seq<(Seq<char>, Seq<Seq<char>>)>),
> {
    match c {
        Some(c) => Some((c.current.deep_view(), offers_of(c.models@))),
        None => None,
    }
}

/// The level a delegated child should run at, held to what the model it will run on
/// accepts.
pub fn resolve_child_effort(catalog: &Option<Offers>, on: Option<&str>, effort: Option<&str>) -> (r:
    Result<Option<ReasoningEffort>, String>)
    ensures
        effort_view(r) == child_effort(
            catalog_view(*catalog),
            match on {
                Some(t) => Some(t@),
                None => None,
            },
            match effort {
                Some(t) => Some(t@),
                None => None,
            },
        ),
{
    let asked = match said(effort) {
        Some(asked) => asked,
        None => return Ok(None),
    };
    let level = match ReasoningEffort::from_config(Some(asked.as_str())) {
        Some(level) => level,
        None => {
            return Err(
                lit("`").concat(asked.as_str()).concat(
                    "` is not a thinking level; use one of: ",
                ).concat(join(&levels(), ", ").as_str()),
            );
        },
    };
    match catalog {
        None => Ok(Some(level)),
        Some(c) => {
            let target = match said(on) {
                Some(named) => Some(named),
                None => c.current.clone(),
            };
            match target {
                None => Ok(Some(level)),
                Some(target) => {
                    let taken = find_levels(&c.models, target.as_str());
                    if taken.len() > 0 && !among(&taken, level.as_str()) {
                        Err(
                            lit("`").concat(target.as_str()).concat("` does not take `").concat(
                                asked.as_str(),
                            ).concat("`; it accepts: ").concat(join(&taken, ", ").as_str()),
                        )
                    } else {
                        Ok(Some(level))
                    }
                },
            }
        },
    }
}

/// A catalog that says nothing of a model's levels is not a no: the level stands.
pub proof fn law_silence_is_not_a_no(
    current: Option<Seq<char>>,
    offers: Seq<(Seq<char>, Seq<Seq<char>>)>,
    on: Option<Seq<char>>,
    effort: Option<Seq<char>>,
)
    requires
        forall|i: int| 0 <= i < offers.len() ==> (#[trigger] offers[i]).1.len() == 0,
        given(effort) is Some,
        configured(given(effort)) is Some,
    ensures
        child_effort(Some((current, offers)), on, effort) == Ok::<Option<ReasoningEffort>, Seq<char>>(
            configured(given(effort)),
        ),
{
    let target = match given(on) {
        Some(named) => Some(named),
        None => current,
    };
    match target {
        Some(t) => {
            lemma_nothing_said(offers, t);
        },
        None => {},
    }
}

proof fn lemma_nothing_said(offers: Seq<(Seq<char>, Seq<Seq<char>>)>, id: Seq<char>)
    requires
        forall|i: int| 0 <= i < offers.len() ==> (#[trigger] offers[i]).1.len() == 0,
    ensures
        accepted(offers, id).len() == 0,
    decreases offers.len(),
{
    if offers.len() > 0 {
        assert(offers[0].1.len() == 0);
        let rest = offers.skip(1);
        assert forall|i: int| 0 <= i < rest.len() implies (#[trigger] rest[i]).1.len() == 0 by {
            assert(rest[i] == offers[i + 1]);
        }
        lemma_nothing_said(rest, id);
    }
}

} // verus!
