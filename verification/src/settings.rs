//! Where the settings come from, and what the startup leaves behind.

use vstd::prelude::*;

use crate::answers;
use crate::config;
use crate::error::CauseView;
use crate::model::{AppConfigView, StartupConfigActionView};
use crate::outside;
use crate::quiet;
use crate::reading;
use crate::reading::{Deed, deed};
use crate::record;
use crate::record::Event;
use crate::text;

verus! {

broadcast use crate::record::group_record;

/// At `i` a program told this value of the setting.
pub open spec fn tells_setting(log: Seq<Event>, i: int, key: Seq<char>, value: Seq<char>) -> bool {
    &&& 0 <= i < log.len()
    &&& deed(log[i]) == (Deed::GetSetting { key })
    &&& answers::told(record::reply_of(log[i]), value)
}

/// At `i` a program was asked for the setting, and told no value.
pub open spec fn tells_nothing(log: Seq<Event>, i: int, key: Seq<char>) -> bool {
    &&& 0 <= i < log.len()
    &&& log[i] is Call ==> deed(log[i]) == (Deed::GetSetting { key })
    &&& forall|value: Seq<char>| !#[trigger] answers::told(record::reply_of(log[i]), value)
}

/// The value of a setting, asked from `i` on: what the first program told, else what the second told,
/// else the default.
pub open spec fn is_setting(
    log: Seq<Event>,
    i: int,
    key: Seq<char>,
    default: Seq<char>,
    value: Seq<char>,
) -> bool {
    ||| tells_setting(log, i, key, value)
    ||| tells_nothing(log, i, key) && tells_setting(log, i + 1, key, value)
    ||| tells_nothing(log, i, key) && tells_nothing(log, i + 1, key) && value == default
}

proof fn lemma_setting(
    before: Seq<Event>,
    mid: Seq<Event>,
    after: Seq<Event>,
    name: Seq<char>,
    found: Option<Seq<char>>,
    default: Seq<char>,
)
    requires
        config::setting_searched(before, mid, name, found),
        record::extends(mid, after),
    ensures
        is_setting(
            after,
            before.len() as int,
            "stack."@ + name,
            default,
            config::or_default(found, default),
        ),
        record::extends(before, after),
        before.len() < mid.len(),
{
    broadcast use crate::wording::group_wording;

    let n = before.len() as int;
    let key = "stack."@ + name;
    record::lemma_extends_trans(before, mid, after);
    assert(after.take(mid.len() as int)[n] == mid[n]);
    let value = config::or_default(found, default);
    lemma_told(record::reply_of(after[n]));
    assert(mid[n] is Call ==> deed(after[n]) == (Deed::GetSetting { key }));
    match config::setting_answer(record::reply_of(mid[n])) {
        Some(word) => {
            answers::law_setting_is_the_word(key, record::reply_of(after[n]), word);
            assert(after[n] is Call);
        },
        None => {
            assert(after.take(mid.len() as int)[n + 1] == mid[n + 1]);
            lemma_told(record::reply_of(after[n + 1]));
            if found is Some {
                answers::law_setting_is_the_word(key, record::reply_of(after[n + 1]), value);
                assert(after[n + 1] is Call) by {
                    reveal(record::in_place);
                }
            }
        },
    }
}

proof fn lemma_told(reply: record::Reply)
    ensures
        config::setting_answer(reply) is None ==> forall|value: Seq<char>|
            !#[trigger] answers::told(reply, value),
{
    assert forall|value: Seq<char>| config::setting_answer(reply) is None implies
        !#[trigger] answers::told(reply, value) by {
        answers::law_setting_is_the_word(seq![], reply, value);
    }
}

/// The yes or no of a word, in whatever case.
pub open spec fn says(word: Seq<char>, yes: bool) -> bool {
    let w = text::lower_all(text::trim(word));
    if yes {
        w == "true"@ || w == "yes"@ || w == "on"@ || w == "1"@
    } else {
        w == "false"@ || w == "no"@ || w == "off"@ || w == "0"@
    }
}

/// The law of the settings: the remote, trunk and branch prefix of a configuration are the values of the
/// settings of these names, else `origin`, `main` and `stack`, and each can stand in a command; and
/// whether an approval is required is what the word of that setting says, and is so where it is not set.
pub proof fn law_config_is_what_was_set(before: Seq<Event>, after: Seq<Event>, config: AppConfigView)
    requires
        config::config_resolved(before, after, Ok(config)),
    ensures
        exists|a: int, b: int, c: int, word: Seq<char>|
            {
                let n = before.len() as int;
                &&& n < a < b < c
                &&& is_setting(after, n, "stack.remote"@, "origin"@, config.remote)
                &&& #[trigger] is_setting(after, a, "stack.trunk"@, "main"@, config.trunk)
                &&& #[trigger] is_setting(after, b, "stack.branch-prefix"@, "stack"@, config.branch_prefix)
                &&& #[trigger] is_setting(after, c, "stack.require-approval"@, "true"@, word)
                &&& says(word, config.require_approval)
            },
        config::is_ref_component(config.remote),
        config::is_ref_component(config.trunk),
        config::is_ref_component(config.branch_prefix),
{
    let (a, b, c, remote, trunk, prefix, approval) = choose|
        a: Seq<Event>,
        b: Seq<Event>,
        c: Seq<Event>,
        remote: Option<Seq<char>>,
        trunk: Option<Seq<char>>,
        prefix: Option<Seq<char>>,
        approval: Option<Seq<char>>,
    |
        {
            &&& #[trigger] config::config_searched(
                before,
                a,
                b,
                c,
                after,
                remote,
                trunk,
                prefix,
                approval,
            )
            &&& Ok::<AppConfigView, Seq<CauseView>>(config) == config::config_result(
                remote,
                trunk,
                prefix,
                approval,
            )
        };
    record::lemma_extends_refl(after);
    lemma_setting(c, after, after, "require-approval"@, approval, "true"@);
    lemma_setting(b, c, after, "branch-prefix"@, prefix, "stack"@);
    lemma_setting(a, b, after, "trunk"@, trunk, "main"@);
    lemma_setting(before, a, after, "remote"@, remote, "origin"@);
    let word = config::or_default(approval, "true"@);
    reveal_strlit("stack.");
    reveal_strlit("remote");
    reveal_strlit("trunk");
    reveal_strlit("branch-prefix");
    reveal_strlit("require-approval");
    reveal_strlit("stack.remote");
    reveal_strlit("stack.trunk");
    reveal_strlit("stack.branch-prefix");
    reveal_strlit("stack.require-approval");
    assert("stack."@ + "remote"@ =~= "stack.remote"@);
    assert("stack."@ + "trunk"@ =~= "stack.trunk"@);
    assert("stack."@ + "branch-prefix"@ =~= "stack.branch-prefix"@);
    assert("stack."@ + "require-approval"@ =~= "stack.require-approval"@);
    if approval is None {
        lemma_true_says();
    }
    assert(says(word, config.require_approval));
    assert(is_setting(after, a.len() as int, "stack.trunk"@, "main"@, config.trunk));
    assert(is_setting(after, b.len() as int, "stack.branch-prefix"@, "stack"@, config.branch_prefix));
    assert(is_setting(after, c.len() as int, "stack.require-approval"@, "true"@, word));
}

proof fn lemma_true_says()
    ensures
        says("true"@, true),
{
    reveal_strlit("true");
    crate::words::law_trim_takes_only_space("true"@);
    assert(text::trim("true"@) == "true"@);
    assert(text::lower_all("true"@) =~= "true"@);
}

/// The law of the startup: what the plan leaves is that the frozen bookmarks are the frozen heads, and
/// that these are immutable; what was immutable before stays so, under its own name where it was the
/// user's own.
pub proof fn law_startup_keeps_what_was_immutable(
    frozen: Option<Seq<char>>,
    immutable: Seq<char>,
    base: Option<Seq<char>>,
    actions: Seq<StartupConfigActionView>,
)
    requires
        config::startup_plan(frozen, immutable, base) == Ok::<_, Seq<CauseView>>(actions),
    ensures
        config::alias_after(frozen, "revset-aliases.\"forklift_frozen_heads()\""@, actions) == Some(
            "bookmarks(glob:'forklift/frozen/*')"@,
        ),
        frozen is Some ==> frozen == Some("bookmarks(glob:'forklift/frozen/*')"@),
        ({
            let now = config::alias_after(
                Some(immutable),
                "revset-aliases.\"immutable_heads()\""@,
                actions,
            )->0;
            let kept = config::alias_after(
                base,
                "revset-aliases.\"forklift_base_immutable_heads()\""@,
                actions,
            );
            ||| now == immutable && kept == base && text::contains(now, "forklift_frozen_heads()"@)
            ||| now == "builtin_immutable_heads() | forklift_frozen_heads()"@ && immutable
                == "builtin_immutable_heads()"@ && kept == base
            ||| now == "forklift_base_immutable_heads() | forklift_frozen_heads()"@ && kept == Some(
                immutable,
            ) && base is None
        }),
{
    reveal_strlit("revset-aliases.\"forklift_frozen_heads()\"");
    reveal_strlit("revset-aliases.\"immutable_heads()\"");
    reveal_strlit("revset-aliases.\"forklift_base_immutable_heads()\"");
    reveal_strlit("builtin_immutable_heads()");
    reveal_strlit("builtin_immutable_heads() | forklift_frozen_heads()");
    reveal_strlit("forklift_base_immutable_heads() | forklift_frozen_heads()");
    reveal_strlit("forklift_frozen_heads()");
    reveal_with_fuel(config::alias_after, 5);
    let first = config::frozen_alias_plan(frozen)->Ok_0;
    let second = config::immutable_alias_plan(immutable, base)->Ok_0;
    assert(actions == first + second);
    if actions.len() > 0 {
        assert(actions.drop_last() =~= first + second.take(second.len() - 1) || second.len() == 0);
    }
    let required = "builtin_immutable_heads() | forklift_frozen_heads()"@;
    let wrapped = "forklift_base_immutable_heads() | forklift_frozen_heads()"@;
    assert(required.subrange(28, 51) =~= "forklift_frozen_heads()"@);
    assert(text::stands_at(required, "forklift_frozen_heads()"@, 28));
    assert(wrapped.subrange(34, 57) =~= "forklift_frozen_heads()"@);
    assert(text::stands_at(wrapped, "forklift_frozen_heads()"@, 34));
}

/// One of these actions is carried out: the setting of its key gets its value, quoted.
pub open spec fn writes_action(event: Event, actions: Seq<StartupConfigActionView>) -> bool {
    exists|k: int|
        {
            &&& 0 <= k < actions.len()
            &&& deed(event) == (Deed::SetSetting {
                key: (#[trigger] actions[k]).key,
                value: outside::json_quoted(actions[k].value),
            })
        }
}

pub open spec fn action_deeds(actions: Seq<StartupConfigActionView>) -> spec_fn(Event) -> bool {
    |event: Event| writes_action(event, actions)
}

/// The law of the written settings: all that the startup changes is the settings of its plan, each to the
/// planned value; where it succeeds, each was written, in the order of the plan.
pub proof fn law_startup_writes_its_plan(
    before: Seq<Event>,
    after: Seq<Event>,
    actions: Seq<StartupConfigActionView>,
    r: Result<(), Seq<CauseView>>,
)
    requires
        config::actions_written(before, after, actions, r),
    ensures
        reading::did(before, after, action_deeds(actions)),
        r is Ok ==> after.len() == before.len() + actions.len(),
        forall|k: int|
            0 <= k < actions.len() && before.len() + k < after.len() ==> deed(
                after[before.len() + k],
            ) == (Deed::SetSetting {
                key: (#[trigger] actions[k]).key,
                value: outside::json_quoted(actions[k].value),
            }),
    decreases actions.len(),
{
    broadcast use {
        crate::quiet::group_quiet,
        crate::reading::group_reading,
        crate::wording::group_wording,
    };

    let may = action_deeds(actions);
    if actions.len() > 0 {
        let (mid, first) = choose|mid: Seq<Event>, first: Result<(), Seq<CauseView>>|
            {
                &&& #[trigger] config::setting_written(
                    before,
                    mid,
                    actions[0].key,
                    actions[0].value,
                    first,
                )
                &&& match first {
                    Err(e) => after == mid && r == Err::<(), _>(e),
                    Ok(u) => config::actions_written(mid, after, actions.drop_first(), r),
                }
            };
        let n = before.len() as int;
        assert(deed(mid[n]) == (Deed::SetSetting {
            key: actions[0].key,
            value: outside::json_quoted(actions[0].value),
        }));
        assert(writes_action(mid.last(), actions));
        assert(reading::did(before, mid, may));
        if first is Ok {
            let rest = actions.drop_first();
            law_startup_writes_its_plan(mid, after, rest, r);
            assert forall|event: Event| action_deeds(rest)(event) implies #[trigger] may(event) by {
                let k = choose|k: int|
                    {
                        &&& 0 <= k < rest.len()
                        &&& deed(event) == (Deed::SetSetting {
                            key: (#[trigger] rest[k]).key,
                            value: outside::json_quoted(rest[k].value),
                        })
                    };
                assert(actions[k + 1] == rest[k]);
            }
            reading::lemma_did_less(mid, after, action_deeds(rest), may);
            reading::lemma_did_trans(before, mid, after, may);
            assert(record::extends(mid, after)) by {
                reveal(reading::did);
            }
            assert(after.take(mid.len() as int)[n] == mid[n]);
            assert forall|k: int|
                0 <= k < actions.len() && n + k < after.len() implies deed(after[n + k]) == (
            Deed::SetSetting {
                key: (#[trigger] actions[k]).key,
                value: outside::json_quoted(actions[k].value),
            }) by {
                if k > 0 {
                    assert(rest[k - 1] == actions[k]);
                    assert(mid.len() + (k - 1) == n + k);
                }
            }
        }
    }
}

} // verus!
