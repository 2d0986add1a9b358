//! What a tree offers and what it says of itself: every capability is offered by its name,
//! and what is told names everything that is there.
use crate::capabilities;
use crate::capabilities::{AdaptedView, MemoryCommandView, ReviewRowView, SkillView};
use crate::events::SessionEventView;
use crate::json;
use crate::occurrence;
use crate::order;
use crate::persona;
use crate::registries;
use crate::registries::ToolPolicyView;
use crate::self_knowledge;
use crate::self_knowledge::{FactsView, SettingSpecView, ToolDefView};
use crate::text;
use vstd::prelude::*;

verus! {

// ---- skills ---------------------------------------------------------------

/// A skill is called by what stands behind the last colon of its name.
pub proof fn law_a_skill_is_called_by_its_last_part(head: Seq<char>, name: Seq<char>)
    requires
        !name.contains(':'),
    ensures
        capabilities::bared(name) == name,
        capabilities::bared(head + seq![':'] + name) == name,
    decreases head.len(),
{
    text::lemma_index_of(name, ':');
    if text::index_of(name, ':') < name.len() {
        assert(name.contains(name[text::index_of(name, ':')]));
    }
    assert(text::pieces(name, ':') =~= seq![name]);
    let all = head + seq![':'] + name;
    text::lemma_index_of(all, ':');
    let k = text::index_of(all, ':');
    assert(all[head.len() as int] == ':');
    assert(k <= head.len());
    let rest = all.skip(k + 1);
    if k == head.len() {
        assert(rest =~= name);
    } else {
        assert(rest =~= head.skip(k + 1) + seq![':'] + name);
        law_a_skill_is_called_by_its_last_part(head.skip(k + 1), name);
    }
    text::lemma_some_piece(rest, ':');
    assert(text::pieces(all, ':').last() == text::pieces(rest, ':').last());
}

/// Every skill whose name is free is offered, the first of a name before any other, and
/// afterwards no name of a skill is free.
pub proof fn law_every_free_skill_is_offered(
    taken: Set<Seq<char>>,
    skills: Seq<Seq<char>>,
    k: int,
)
    requires
        0 <= k < skills.len(),
    ensures
        ({
            let (now, out) = capabilities::offered(taken, skills);
            let name = capabilities::bared(skills[k]);
            &&& now.contains(name)
            &&& !taken.contains(name) && (forall|j: int|
                0 <= j < k ==> capabilities::bared(#[trigger] skills[j]) != name) ==> out.contains(
                skills[k],
            )
        }),
    decreases skills.len(),
{
    let front = skills.drop_last();
    let (before, told) = capabilities::offered(taken, front);
    let (now, out) = capabilities::offered(taken, skills);
    let name = capabilities::bared(skills[k]);
    if k < front.len() {
        law_every_free_skill_is_offered(taken, front, k);
        assert(front[k] == skills[k]);
        if !taken.contains(name) && (forall|j: int|
            0 <= j < k ==> capabilities::bared(#[trigger] skills[j]) != name) {
            assert forall|j: int| 0 <= j < k implies capabilities::bared(
                #[trigger] front[j],
            ) != name by {
                assert(front[j] == skills[j]);
            }
            let i = choose|i: int| 0 <= i < told.len() && told[i] == skills[k];
            assert(out[i] == skills[k]);
        }
    } else {
        lemma_now_taken(taken, front, name);
        if !taken.contains(name) && (forall|j: int|
            0 <= j < k ==> capabilities::bared(#[trigger] skills[j]) != name) {
            if before.contains(name) {
                let j = choose|j: int|
                    0 <= j < front.len() && capabilities::bared(#[trigger] front[j]) == name;
                assert(skills[j] == front[j]);
            }
            assert(out.last() == skills[k]);
        }
    }
}

proof fn lemma_now_taken(taken: Set<Seq<char>>, skills: Seq<Seq<char>>, name: Seq<char>)
    ensures
        capabilities::offered(taken, skills).0.contains(name) <==> taken.contains(name)
            || exists|j: int|
            0 <= j < skills.len() && capabilities::bared(#[trigger] skills[j]) == name,
    decreases skills.len(),
{
    if skills.len() > 0 {
        let front = skills.drop_last();
        lemma_now_taken(taken, front, name);
        if exists|j: int| 0 <= j < front.len() && capabilities::bared(#[trigger] front[j]) == name {
            let j = choose|j: int|
                0 <= j < front.len() && capabilities::bared(#[trigger] front[j]) == name;
            assert(skills[j] == front[j]);
        }
        if exists|j: int| 0 <= j < skills.len() && capabilities::bared(
            #[trigger] skills[j],
        ) == name {
            let j = choose|j: int|
                0 <= j < skills.len() && capabilities::bared(#[trigger] skills[j]) == name;
            if j < front.len() {
                assert(front[j] == skills[j]);
            }
        }
        assert(skills[skills.len() - 1] == skills.last());
    }
}

/// Every skill is listed, in order, by its name and what it is for.
pub proof fn law_every_skill_is_listed(skills: Seq<SkillView>, k: int)
    requires
        0 <= k < skills.len(),
    ensures
        occurrence::in_order(
            capabilities::skills_text(skills),
            skills.map_values(|s: SkillView| s.name),
        ),
        text::holds(capabilities::skills_text(skills), skills[k].description),
{
    let lines = capabilities::listing(skills);
    let names = skills.map_values(|s: SkillView| s.name);
    let about = skills.map_values(|s: SkillView| s.description);
    let none = Seq::<char>::empty();
    assert forall|i: int| 0 <= i < names.len() implies occurrence::in_order(
        #[trigger] lines[i],
        seq![names[i]],
    ) by {
        let rest = " · "@ + skills[i].description;
        occurrence::lemma_within(none, names[i], rest);
        assert(none + names[i] + rest =~= lines[i]);
    }
    assert forall|i: int| 0 <= i < about.len() implies occurrence::in_order(
        #[trigger] lines[i],
        seq![about[i]],
    ) by {
        let front = skills[i].name + " · "@;
        occurrence::lemma_within(front, about[i], none);
        assert(front + about[i] + none =~= lines[i]);
    }
    occurrence::lemma_joined_within(lines, "\n"@, names);
    occurrence::lemma_joined_within(lines, "\n"@, about);
    occurrence::lemma_each(capabilities::skills_text(skills), about, k);
}

// ---- what is configured ---------------------------------------------------

/// A row that names something is taken at its word; only a silent or blank one leaves it to
/// the environment.
pub proof fn law_a_named_choice_stands(
    row: Seq<char>,
    environment: Option<Seq<char>>,
    review: ReviewRowView,
    model: Seq<char>,
    window: u32,
    default_window: u32,
)
    ensures
        !text::is_blank(row) ==> capabilities::provider_for(Some(row), environment) == Some(row),
        text::is_blank(row) ==> capabilities::provider_for(Some(row), environment) == environment,
        capabilities::provider_for(None, environment) == environment,
        persona::model_named(Some(row), environment) == row,
        environment matches Some(m) ==> persona::model_named(None, environment) == m,
        environment is None ==> persona::model_named(None, environment).len() == 0,
        ({
            let c = capabilities::reviewing(review, model, window, default_window);
            &&& review.model matches Some(m) ==> (!text::is_blank(m) ==> c.model == m)
            &&& review.model is None || text::is_blank(review.model->0) ==> c.model == model
            &&& review.context_window matches Some(w) ==> (w > 0 ==> c.context_window == w)
            &&& review.context_window is None && window > 0 ==> c.context_window == window
            &&& default_window > 0 ==> c.context_window > 0
            &&& c.rules_dir == review.rules_dir
        }),
{
    reveal_strlit("");
}

/// A person's own rules stand behind the persona; without any, the persona stands alone.
pub proof fn law_own_rules_are_added(extra: Seq<char>)
    ensures
        !text::is_blank(extra) ==> text::trimmed(extra).is_suffix_of(
            persona::with_rules(Some(extra)),
        ),
        text::is_blank(extra) ==> persona::with_rules(Some(extra)) == persona::with_rules(None),
{
    if !text::is_blank(extra) {
        let all = persona::with_rules(Some(extra));
        let t = text::trimmed(extra);
        assert(t =~= all.subrange(all.len() - t.len(), all.len() as int));
    }
}

/// A review is of what was asked for, and of everything where nothing was.
pub proof fn law_a_review_has_its_scope(args: Seq<char>)
    ensures
        text::is_blank(args) ==> capabilities::scoped(args) == "{}"@,
        !text::is_blank(args) ==> text::holds(
            capabilities::scoped(args),
            json::quoted(text::trimmed(args)),
        ),
{
    if !text::is_blank(args) {
        let q = json::quoted(text::trimmed(args));
        let at = "{\"scope\":"@.len() as int;
        assert(capabilities::scoped(args).subrange(at, at + q.len()) =~= q);
    }
}

/// What is to be remembered or forgotten is handed on with its action; only listing needs no
/// words.
pub proof fn law_memory_is_told_what_to_do(c: MemoryCommandView, args: Seq<char>)
    ensures
        capabilities::memory_called(c, args) is Err <==> text::is_blank(args) && c.action
            != "list"@,
        capabilities::memory_called(c, args) matches Ok(call) ==> text::holds(
            call,
            json::quoted(c.action),
        ) && (!text::is_blank(args) ==> occurrence::in_order(
            call,
            seq![json::quoted(c.action), json::quoted(text::trimmed(args))],
        )),
{
    match capabilities::memory_called(c, args) {
        Ok(call) => {
            let head = "{\"action\":"@;
            let a = json::quoted(c.action);
            let at = head.len() as int;
            assert(call.subrange(at, at + a.len()) =~= a);
            if !text::is_blank(args) {
                let q = json::quoted(text::trimmed(args));
                let mid = if c.action == "forget"@ {
                    ",\"keyword\":"@
                } else {
                    ",\"content\":"@
                };
                occurrence::lemma_within(head, a, mid);
                occurrence::lemma_one_more(head + a + mid, seq![a], q, "}"@);
                assert(seq![a].push(q) =~= seq![a, q]);
                assert(call =~= head + a + mid + q + "}"@);
            }
        },
        Err(_) => {},
    }
}

/// What is remembered comes with a session's first turn, as it was remembered, where there
/// is anything and it is wanted.
pub proof fn law_memory_comes_as_it_is(turn: u64, merged: Seq<char>, inject: bool)
    ensures
        capabilities::remembered(turn, merged, inject) is Some <==> merged.len() > 0 && inject
            && turn == 1,
        capabilities::remembered(turn, merged, inject) matches Some(e) ==> (
        e matches SessionEventView::Injected { turn: t, text, origin } && t == turn && text
            == merged && origin is Memory),
{
}

/// Every tool that could be adapted is mounted, in order, and every one that could not is
/// spoken of with its reason.
pub proof fn law_found_tools_are_mounted(found: Seq<AdaptedView>)
    ensures
        capabilities::mounting(found).mounted == found.filter_map(
            |a: AdaptedView|
                match a {
                    AdaptedView::Tool(name) => Some(name),
                    AdaptedView::Refused(_) => None,
                },
        ),
        forall|k: int|
            0 <= k < found.len() ==> ((#[trigger] found[k]) matches AdaptedView::Refused(why)
                ==> exists|i: int|
                0 <= i < capabilities::mounting(found).skipped.len() && why.is_suffix_of(
                    #[trigger] capabilities::mounting(found).skipped[i],
                )),
    decreases found.len(),
{
    let tool = |a: AdaptedView|
        match a {
            AdaptedView::Tool(name) => Some(name),
            AdaptedView::Refused(_) => None,
        };
    let now = capabilities::mounting(found);
    if found.len() == 0 {
        assert(now.mounted =~= found.filter_map(tool));
    } else {
        let front = found.drop_last();
        law_found_tools_are_mounted(front);
        let before = capabilities::mounting(front);
        assert(now.mounted =~= found.filter_map(tool));
        assert forall|k: int| 0 <= k < found.len() implies ((
        #[trigger] found[k]) matches AdaptedView::Refused(why) ==> exists|i: int|
            0 <= i < now.skipped.len() && why.is_suffix_of(#[trigger] now.skipped[i])) by {
            match found[k] {
                AdaptedView::Refused(why) => {
                    if k < front.len() {
                        assert(front[k] == found[k]);
                        let i = choose|i: int|
                            0 <= i < before.skipped.len() && why.is_suffix_of(
                                #[trigger] before.skipped[i],
                            );
                        assert(now.skipped[i] == before.skipped[i]);
                    } else {
                        let s = now.skipped.last();
                        assert(why =~= s.subrange(s.len() - why.len(), s.len() as int));
                        assert(why.is_suffix_of(now.skipped[now.skipped.len() - 1]));
                    }
                },
                _ => {},
            }
        }
    }
}

// ---- which tools ----------------------------------------------------------

/// A pattern's plain beginning stands for itself, and what follows it fits what follows.
pub proof fn law_a_pattern_is_read_from_the_front(
    head: Seq<char>,
    rest: Seq<char>,
    name: Seq<char>,
)
    requires
        !head.contains('*'),
    ensures
        registries::fits(head + rest, name) <==> head.is_prefix_of(name) && registries::fits(
            rest,
            name.skip(head.len() as int),
        ),
    decreases head.len(),
{
    if head.len() == 0 {
        assert(head + rest =~= rest);
        assert(name.skip(0) =~= name);
        assert(head =~= name.take(0));
    } else {
        let p = head + rest;
        assert(head.contains(head[0]));
        assert(p[0] == head[0]);
        assert(p.skip(1) =~= head.skip(1) + rest);
        if name.len() > 0 {
            assert(!head.skip(1).contains('*')) by {
                if head.skip(1).contains('*') {
                    let i = choose|i: int| 0 <= i < head.skip(1).len() && head.skip(1)[i] == '*';
                    assert(head[i + 1] == '*');
                }
            }
            law_a_pattern_is_read_from_the_front(head.skip(1), rest, name.skip(1));
            if head.is_prefix_of(name) {
                assert(head[0] == name[0]);
                assert(head.skip(1) =~= name.skip(1).take(head.len() - 1));
                assert(name.skip(1).skip(head.len() - 1) =~= name.skip(head.len() as int));
            }
            if name[0] == head[0] && head.skip(1).is_prefix_of(name.skip(1)) {
                assert forall|i: int| 0 <= i < head.len() implies head[i] == name[i] by {
                    if i > 0 {
                        assert(head.skip(1)[i - 1] == name.skip(1)[i - 1]);
                    }
                }
                assert(head =~= name.take(head.len() as int));
                assert(name.skip(1).skip(head.len() - 1) =~= name.skip(head.len() as int));
            }
        }
    }
}

/// A star stands for any run of characters, wherever it stands.
pub proof fn law_a_star_stands_for_any_run(rest: Seq<char>, name: Seq<char>)
    ensures
        registries::fits(seq!['*'] + rest, name) <==> exists|k: int|
            0 <= k <= name.len() && registries::fits(rest, #[trigger] name.skip(k)),
    decreases name.len(),
{
    let p = seq!['*'] + rest;
    assert(p.skip(1) =~= rest);
    assert(p[0] == '*');
    assert(name.skip(0) =~= name);
    if name.len() > 0 {
        let less = name.skip(1);
        law_a_star_stands_for_any_run(rest, less);
        if exists|k: int| 0 <= k <= less.len() && registries::fits(rest, #[trigger] less.skip(k)) {
            let k = choose|k: int|
                0 <= k <= less.len() && registries::fits(rest, #[trigger] less.skip(k));
            assert(name.skip(k + 1) =~= less.skip(k));
        }
        if exists|k: int| 0 <= k <= name.len() && registries::fits(rest, #[trigger] name.skip(k)) {
            let k = choose|k: int|
                0 <= k <= name.len() && registries::fits(rest, #[trigger] name.skip(k));
            if k > 0 {
                assert(less.skip(k - 1) =~= name.skip(k));
            }
        }
    } else if exists|k: int| 0 <= k <= name.len() && registries::fits(rest, #[trigger] name.skip(k)) {
        let k = choose|k: int|
            0 <= k <= name.len() && registries::fits(rest, #[trigger] name.skip(k));
        assert(k == 0);
    }
}

/// A tool is let in where the list of those let in names it or is empty, unless the list of
/// those kept out does.
pub proof fn law_a_policy_lets_in_what_it_names(p: ToolPolicyView, name: Seq<char>, k: int)
    ensures
        0 <= k < p.only.len() && registries::fits(p.only[k], name) && !registries::fits_any(
            p.never,
            name,
        ) ==> registries::admitted(p, name),
        0 <= k < p.never.len() && registries::fits(p.never[k], name) ==> !registries::admitted(
            p,
            name,
        ),
        p.only.len() > 0 && !registries::fits_any(p.only, name) ==> !registries::admitted(p, name),
        p.only.len() == 0 && !registries::fits_any(p.never, name) ==> registries::admitted(p, name),
{
}

// ---- what a tree says of itself -------------------------------------------

/// Names laid out in rows are all there, in order.
proof fn lemma_rows(names: Seq<Seq<char>>)
    ensures
        occurrence::in_order(text::joined(self_knowledge::rows_of_six(names), "\n"@), names),
    decreases names.len(),
{
    let none = Seq::<char>::empty();
    let rows = self_knowledge::rows_of_six(names);
    let all = text::joined(rows, "\n"@);
    if names.len() == 0 {
        assert(names =~= Seq::empty());
        occurrence::lemma_none(all);
    } else if names.len() <= 6 {
        occurrence::lemma_joined(names, ", "@);
        occurrence::lemma_wrapped("  "@, text::joined(names, ", "@), none, names);
        assert("  "@ + text::joined(names, ", "@) + none =~= rows[0]);
        assert(all =~= rows[0]);
    } else {
        let six = names.take(6);
        let rest = names.skip(6);
        let row = "  "@ + text::joined(six, ", "@);
        let more = self_knowledge::rows_of_six(rest);
        occurrence::lemma_joined(six, ", "@);
        occurrence::lemma_wrapped("  "@, text::joined(six, ", "@), "\n"@, six);
        lemma_rows(rest);
        occurrence::lemma_together(
            "  "@ + text::joined(six, ", "@) + "\n"@,
            six,
            text::joined(more, "\n"@),
            rest,
        );
        lemma_joined_front(row, more, "\n"@);
        assert(rows =~= seq![row] + more);
        assert(six + rest =~= names);
    }
}

proof fn lemma_joined_front(first: Seq<char>, rest: Seq<Seq<char>>, sep: Seq<char>)
    requires
        rest.len() > 0,
    ensures
        text::joined(seq![first] + rest, sep) == first + sep + text::joined(rest, sep),
    decreases rest.len(),
{
    let all = seq![first] + rest;
    assert(all.last() == rest.last());
    if rest.len() == 1 {
        assert(all.drop_last() =~= seq![first]);
        assert(text::joined(seq![first], sep) == first);
        assert(text::joined(rest, sep) == rest[0]);
    } else {
        lemma_joined_front(first, rest.drop_last(), sep);
        assert(all.drop_last() =~= seq![first] + rest.drop_last());
        assert(text::joined(all, sep) =~= text::joined(all.drop_last(), sep) + sep + all.last());
        assert(text::joined(rest, sep) =~= text::joined(rest.drop_last(), sep) + sep
            + rest.last());
    }
}

/// Every service that is mounted is named, in the order of their names, and they are
/// counted.
pub proof fn law_every_service_is_named(names: Seq<Seq<char>>, k: int)
    requires
        0 <= k < names.len(),
    ensures
        occurrence::in_order(self_knowledge::services_text(names), order::sorted(names)),
        text::holds(self_knowledge::services_text(names), names[k]),
        text::holds(self_knowledge::services_text(names), text::decimal(names.len())),
{
    let sorted = order::sorted(names);
    let list = text::joined(self_knowledge::rows_of_six(sorted), "\n"@);
    let all = self_knowledge::services_text(names);
    lemma_rows(sorted);
    let front = all.take(all.len() - list.len());
    let none = Seq::<char>::empty();
    assert(front + list + none =~= all);
    occurrence::lemma_wrapped(front, list, none, sorted);
    order::lemma_ordered();
    names.lemma_sort_by_ensures(order::by_text());
    assert(sorted.contains(names[k])) by {
        names.to_multiset_ensures();
        sorted.to_multiset_ensures();
        assert(names.contains(names[k]));
        assert(sorted.to_multiset().count(names[k]) > 0);
    }
    let j = choose|j: int| 0 <= j < sorted.len() && sorted[j] == names[k];
    occurrence::lemma_each(all, sorted, j);
    let at = "The service slots filled and visible from this agent's realm ("@.len() as int;
    let d = text::decimal(names.len());
    assert(all.subrange(at, at + d.len()) =~= d);
}

/// Every tool that is registered is named, in order.
pub proof fn law_every_tool_is_told_of(defs: Seq<ToolDefView>)
    requires
        defs.len() > 0,
    ensures
        occurrence::in_order(
            self_knowledge::tools_text(Some(defs)),
            defs.map_values(|d: ToolDefView| d.name),
        ),
{
    lemma_tool_lines(defs);
    let names = defs.map_values(|d: ToolDefView| d.name);
    let list = self_knowledge::tool_lines(defs);
    let front = text::decimal(defs.len()) + " tools are registered right now:\n"@;
    let none = Seq::<char>::empty();
    occurrence::lemma_wrapped(front, list, none, names);
    assert(front + list + none =~= self_knowledge::tools_text(Some(defs)));
}

proof fn lemma_tool_lines(defs: Seq<ToolDefView>)
    ensures
        occurrence::in_order(
            self_knowledge::tool_lines(defs),
            defs.map_values(|d: ToolDefView| d.name),
        ),
    decreases defs.len(),
{
    let name = |d: ToolDefView| d.name;
    if defs.len() == 0 {
        assert(defs.map_values(name) =~= Seq::empty());
        occurrence::lemma_none(self_knowledge::tool_lines(defs));
    } else {
        let front = defs.drop_last();
        lemma_tool_lines(front);
        let d = defs.last();
        let before = self_knowledge::tool_lines(front);
        let rest = " — "@ + self_knowledge::first_said(text::lines(d.description)) + "\n"@;
        occurrence::lemma_none("  "@);
        occurrence::lemma_together(before, front.map_values(name), "  "@, Seq::empty());
        let parts = front.map_values(name) + Seq::empty();
        occurrence::lemma_one_more(before + "  "@, parts, d.name, rest);
        assert(parts.push(d.name) =~= defs.map_values(name));
        assert(self_knowledge::tool_lines(defs) =~= before + "  "@ + d.name + rest);
    }
}

/// Every setting is named, in order, and where they are kept.
pub proof fn law_every_setting_is_told_of(path: Seq<char>, settings: Seq<SettingSpecView>)
    ensures
        occurrence::in_order(
            self_knowledge::settings_text(path, settings),
            settings.map_values(|s: SettingSpecView| s.id),
        ),
        text::holds(self_knowledge::settings_text(path, settings), path),
{
    lemma_setting_lines(settings);
    let ids = settings.map_values(|s: SettingSpecView| s.id);
    let list = self_knowledge::setting_lines(settings);
    let head = self_knowledge::settings_head(path, settings);
    let none = Seq::<char>::empty();
    occurrence::lemma_wrapped(head, list, none, ids);
    assert(head + list + none =~= self_knowledge::settings_text(path, settings));
    let at = "User settings live in `"@.len() as int;
    assert(self_knowledge::settings_text(path, settings).subrange(at, at + path.len()) =~= path);
}

proof fn lemma_setting_lines(settings: Seq<SettingSpecView>)
    ensures
        occurrence::in_order(
            self_knowledge::setting_lines(settings),
            settings.map_values(|s: SettingSpecView| s.id),
        ),
    decreases settings.len(),
{
    let id = |s: SettingSpecView| s.id;
    if settings.len() == 0 {
        assert(settings.map_values(id) =~= Seq::empty());
        occurrence::lemma_none(self_knowledge::setting_lines(settings));
    } else {
        let front = settings.drop_last();
        lemma_setting_lines(front);
        let s = settings.last();
        let before = self_knowledge::setting_lines(front);
        let line = self_knowledge::setting_text(s);
        let rest = line.skip(("\n  "@ + s.id).len() as int);
        occurrence::lemma_none("\n  "@);
        occurrence::lemma_together(before, front.map_values(id), "\n  "@, Seq::empty());
        let parts = front.map_values(id) + Seq::empty();
        occurrence::lemma_one_more(before + "\n  "@, parts, s.id, rest);
        assert(parts.push(s.id) =~= settings.map_values(id));
        assert(line =~= "\n  "@ + s.id + rest);
        assert(self_knowledge::setting_lines(settings) =~= before + "\n  "@ + s.id + rest);
    }
}

/// A tree tells what it is asked about, and everything but the settings where it is asked
/// about no part of itself.
pub proof fn law_a_tree_tells_what_it_is_asked(aspect: Seq<char>, f: FactsView)
    ensures
        aspect == "session"@ ==> self_knowledge::told(aspect, f) == self_knowledge::session_text(
            f.session,
        ),
        aspect == "services"@ ==> self_knowledge::told(aspect, f)
            == self_knowledge::services_text(f.services),
        aspect == "tools"@ ==> self_knowledge::told(aspect, f) == self_knowledge::tools_text(
            f.tools,
        ),
        aspect == "operations"@ ==> self_knowledge::told(aspect, f)
            == self_knowledge::operations_text(f.operations),
        aspect == "settings"@ ==> self_knowledge::told(aspect, f)
            == self_knowledge::settings_text(f.settings_path, f.settings),
        aspect != "session"@ && aspect != "services"@ && aspect != "tools"@ && aspect
            != "operations"@ && aspect != "settings"@ ==> occurrence::in_order(
            self_knowledge::told(aspect, f),
            seq![
                self_knowledge::session_text(f.session),
                self_knowledge::services_text(f.services),
                self_knowledge::tools_text(f.tools),
                self_knowledge::operations_text(f.operations),
            ],
        ),
{
    assert("session"@.len() == 7 && "services"@.len() == 8 && "tools"@.len() == 5
        && "operations"@.len() == 10 && "settings"@.len() == 8 && "services"@[2] == 'r'
        && "settings"@[2] == 't') by {
        reveal_strlit("session");
        reveal_strlit("services");
        reveal_strlit("tools");
        reveal_strlit("operations");
        reveal_strlit("settings");
    }
    let a = self_knowledge::session_text(f.session);
    let b = self_knowledge::services_text(f.services);
    let c = self_knowledge::tools_text(f.tools);
    let d = self_knowledge::operations_text(f.operations);
    let none = Seq::<char>::empty();
    let gap = "\n\n"@;
    occurrence::lemma_within(none, a, gap);
    let s1 = none + a + gap;
    occurrence::lemma_one_more(s1, seq![a], b, gap);
    let s2 = s1 + b + gap;
    occurrence::lemma_one_more(s2, seq![a].push(b), c, gap);
    let s3 = s2 + c + gap;
    occurrence::lemma_one_more(s3, seq![a].push(b).push(c), d, none);
    assert(seq![a].push(b).push(c).push(d) =~= seq![a, b, c, d]);
    assert(a + gap + b + gap + c + gap + d =~= s3 + d + none);
}

} // verus!
