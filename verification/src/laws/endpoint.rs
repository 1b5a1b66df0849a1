//! What is read out of the responses of an endpoint, and of a configuration.
use vstd::prelude::*;

use crate::config::{
    agent_of, config_of, memory_of, model_of, project_of, AgentView, ConfigFields, ConfigView,
    MemoryView, ModelConfigView, ModelFields, ProjectView,
};
use crate::data::{distinct_names, DataView};
use crate::decode::{field, Fields};
use crate::laws::records::{lacks, lemma_fits, lemma_member_is_found, Members};
use crate::laws::texts::lemma_takes_off_trailing;
use crate::message::{MessageView, Role, SessionView};
use crate::external::json_of_text;
use crate::models::{
    choice_content, choices_of, completions_url, health_of, health_report, probed, replied,
    response_content, status_error, succeeded, then_reply, HealthFields, HealthView,
};
use crate::provider::{
    script_after, scripted_reply, MockProvider, Provider, ProviderErrorView,
};

verus! {

/// Requests go to `chat/completions` under the base of the address, with one
/// slash between the two, however many the base ends with.
pub proof fn lemma_completions_url(base: Seq<char>, slashes: nat)
    requires
        base.len() > 0 ==> base.last() != '/',
    ensures
        completions_url(base + Seq::new(slashes, |i: int| '/')) == base + "/chat/completions"@,
{
    lemma_takes_off_trailing(base, '/', slashes);
}

/// A request succeeded exactly where its status is in the two hundreds. What did
/// not succeed is an error that tells the status, the address and the body; a
/// reply is said by the model.
pub proof fn lemma_status(code: u16, status: Seq<char>, url: Seq<char>, body: Seq<char>)
    ensures
        succeeded(code) <==> code / 100 == 2,
        status_error(status, url, body) == ProviderErrorView::Backend(
            "HTTP "@ + status + " from "@ + url + ": "@ + body,
        ),
        forall|content: Seq<char>| #[trigger]
            then_reply(Ok(content)) == Ok::<MessageView, ProviderErrorView>(
                MessageView { role: Role::Assistant, content },
            ),
        forall|e: ProviderErrorView| #[trigger]
            then_reply(Err(e)) == Err::<MessageView, ProviderErrorView>(e),
{
}

/// A choice says the content of its message, wherever the members stand.
pub proof fn lemma_choice(choice: Members, message: Members, content: Seq<char>)
    requires
        distinct_names(choice),
        distinct_names(message),
        choice.contains(("message"@, DataView::Object(message))),
    ensures
        choice_content(DataView::Object(choice)) == Ok::<Seq<char>, Seq<char>>(content)
            <==> message.contains(("content"@, DataView::Text(content))),
        lacks(message, "content"@) ==> choice_content(DataView::Object(choice)) is Err,
{
    lemma_member_is_found(choice, "message"@, DataView::Object(message));
    lemma_member_is_found(message, "content"@, DataView::Text(content));
}

/// A response says what its first choice says, where each of its choices says
/// something; without choices, or with one that says nothing, it is an error.
pub proof fn lemma_response(members: Members, items: Seq<DataView>)
    requires
        distinct_names(members),
        members.contains(("choices"@, DataView::Array(items))),
    ensures
        items.len() > 0 && (forall|i: int|
            0 <= i < items.len() ==> choice_content(#[trigger] items[i]) is Ok)
            ==> response_content(Ok(DataView::Object(members))) == Ok::<
            Seq<char>,
            ProviderErrorView,
        >(choice_content(items[0])->Ok_0),
        items.len() == 0 ==> response_content(Ok(DataView::Object(members))) == Err::<
            Seq<char>,
            ProviderErrorView,
        >(ProviderErrorView::Backend("response contained no choices"@)),
        forall|i: int|
            0 <= i < items.len() && choice_content(#[trigger] items[i]) is Err ==> response_content(
                Ok(DataView::Object(members)),
            ) is Err,
        forall|message: Seq<char>| #[trigger]
            response_content(Err(message)) == Err::<Seq<char>, ProviderErrorView>(
                ProviderErrorView::Backend(message),
            ),
{
    lemma_member_is_found(members, "choices"@, DataView::Array(items));
    lemma_choices(items);
}

proof fn lemma_choices(items: Seq<DataView>)
    ensures
        choices_of(items) is Ok <==> forall|i: int|
            0 <= i < items.len() ==> choice_content(#[trigger] items[i]) is Ok,
        choices_of(items) matches Ok(contents) ==> contents.len() == items.len() && forall|i: int|
            0 <= i < items.len() ==> choice_content(items[i]) == Ok::<Seq<char>, Seq<char>>(
                #[trigger] contents[i],
            ),
    decreases items.len(),
{
    if items.len() > 0 {
        let before = items.drop_last();
        lemma_choices(before);
        let last = items.len() - 1;
        assert(items[last] == items.last());
        if choices_of(items) is Ok {
            assert forall|i: int| 0 <= i < items.len() implies choice_content(#[trigger] items[i])
                is Ok by {
                if i < last {
                    assert(before[i] == items[i]);
                }
            }
        }
        if forall|i: int| 0 <= i < items.len() ==> choice_content(#[trigger] items[i]) is Ok {
            assert forall|i: int| 0 <= i < before.len() implies choice_content(
                #[trigger] before[i],
            ) is Ok by {
                assert(before[i] == items[i]);
            }
        }
    }
}

/// Whether an object says this text under a name, or nothing.
pub open spec fn may_say(members: Members, name: Seq<char>, text: Option<Seq<char>>) -> bool {
    match text {
        Some(t) => members.contains((name, DataView::Text(t))),
        None => lacks(members, name) || members.contains((name, DataView::Null)),
    }
}

proof fn lemma_may_say(members: Members, name: Seq<char>, text: Option<Seq<char>>)
    requires
        distinct_names(members),
        may_say(members, name, text),
    ensures
        forall|i: int|
            0 <= i < members.len() && (#[trigger] members[i]).0 == name ==> members[i].1 is Text
                || members[i].1 is Null,
{
    assert forall|i: int|
        0 <= i < members.len() && (#[trigger] members[i]).0 == name implies members[i].1 is Text
        || members[i].1 is Null by {
        assert(members.contains(members[i]));
        lemma_member_is_found(members, name, members[i].1);
        match text {
            Some(t) => lemma_member_is_found(members, name, DataView::Text(t)),
            None => lemma_member_is_found(members, name, DataView::Null),
        }
    }
}

/// A report of the health is an object with its status; which model and which
/// adapter are loaded may be left out. The members stand in any order.
pub proof fn lemma_health(members: Members, report: HealthView)
    requires
        distinct_names(members),
    ensures
        health_of(DataView::Object(members)) == Ok::<HealthView, Seq<char>>(report) <==> {
            &&& members.contains(("status"@, DataView::Text(report.status)))
            &&& may_say(members, "loaded_model"@, report.loaded_model)
            &&& may_say(members, "loaded_adapter"@, report.loaded_adapter)
        },
        forall|v: DataView| #[trigger]
            health_report(Ok(v)) == match health_of(v) {
                Ok(told) => Ok::<HealthView, ProviderErrorView>(told),
                Err(message) => Err(ProviderErrorView::Backend(message)),
            },
        forall|message: Seq<char>| #[trigger]
            health_report(Err(message)) == Err::<HealthView, ProviderErrorView>(
                ProviderErrorView::Backend(message),
            ),
{
    reveal_strlit("status");
    reveal_strlit("loaded_model");
    reveal_strlit("loaded_adapter");
    assert("status"@.len() == 6 && "loaded_model"@.len() == 12 && "loaded_adapter"@.len() == 14);
    lemma_member_is_found(members, "status"@, DataView::Text(report.status));
    lemma_member_is_found(members, "loaded_model"@, DataView::Null);
    lemma_member_is_found(members, "loaded_adapter"@, DataView::Null);
    if let Some(t) = report.loaded_model {
        lemma_member_is_found(members, "loaded_model"@, DataView::Text(t));
    }
    if let Some(t) = report.loaded_adapter {
        lemma_member_is_found(members, "loaded_adapter"@, DataView::Text(t));
    }
    lemma_fits(HealthFields, members);
    if members.contains(("status"@, DataView::Text(report.status))) && may_say(
        members,
        "loaded_model"@,
        report.loaded_model,
    ) && may_say(members, "loaded_adapter"@, report.loaded_adapter) {
        lemma_may_say(members, "loaded_model"@, report.loaded_model);
        lemma_may_say(members, "loaded_adapter"@, report.loaded_adapter);
        assert forall|k: int| 0 <= k < members.len() implies HealthFields.misfit(
            (#[trigger] members[k]).0,
            members[k].1,
        ) is None by {
            assert(members.contains(members[k]));
            if members[k].0 == "status"@ {
                lemma_member_is_found(members, "status"@, members[k].1);
            }
        }
    }
}

/// Whether a section sets this text under a name, or nothing.
pub open spec fn sets(members: Members, name: Seq<char>, text: Option<Seq<char>>) -> bool {
    match text {
        Some(t) => members.contains((name, DataView::Text(t))),
        None => lacks(members, name),
    }
}

/// What the sections of a configuration say: each setting by its name, wherever
/// it stands. The endpoint needs its address and its model.
pub proof fn lemma_sections(
    members: Members,
    project: ProjectView,
    model: ModelConfigView,
    agent: AgentView,
    memory: MemoryView,
)
    requires
        distinct_names(members),
    ensures
        project_of(DataView::Object(members)) == Ok::<ProjectView, Seq<char>>(project) <==> sets(
            members,
            "name"@,
            project.name,
        ),
        memory_of(DataView::Object(members)) == Ok::<MemoryView, Seq<char>>(memory) <==> sets(
            members,
            "dir"@,
            memory.dir,
        ),
        agent_of(DataView::Object(members)) == Ok::<AgentView, Seq<char>>(agent) <==> match agent.max_steps {
            Some(n) => members.contains(("max_steps"@, DataView::Unsigned(n as u64))),
            None => lacks(members, "max_steps"@),
        },
        model_of(DataView::Object(members)) == Ok::<ModelConfigView, Seq<char>>(model) <==> {
            &&& members.contains(("base_url"@, DataView::Text(model.base_url)))
            &&& members.contains(("model"@, DataView::Text(model.model)))
            &&& sets(members, "health_url"@, model.health_url)
        },
{
    lemma_set(members, "name"@, project.name);
    lemma_set(members, "dir"@, memory.dir);
    lemma_set(members, "health_url"@, model.health_url);
    lemma_member_is_found(members, "max_steps"@, DataView::Null);
    if let Some(n) = agent.max_steps {
        lemma_member_is_found(members, "max_steps"@, DataView::Unsigned(n as u64));
        assert((n as u64) as usize == n);
    }
    reveal_strlit("base_url");
    reveal_strlit("model");
    reveal_strlit("health_url");
    assert("base_url"@.len() == 8 && "model"@.len() == 5 && "health_url"@.len() == 10);
    lemma_member_is_found(members, "base_url"@, DataView::Text(model.base_url));
    lemma_member_is_found(members, "model"@, DataView::Text(model.model));
    lemma_fits(ModelFields, members);
    if members.contains(("base_url"@, DataView::Text(model.base_url))) && members.contains(
        ("model"@, DataView::Text(model.model)),
    ) && sets(members, "health_url"@, model.health_url) {
        assert forall|k: int| 0 <= k < members.len() implies ModelFields.misfit(
            (#[trigger] members[k]).0,
            members[k].1,
        ) is None by {
            assert(members.contains(members[k]));
            lemma_member_is_found(members, members[k].0, members[k].1);
        }
    }
}

proof fn lemma_set(members: Members, name: Seq<char>, text: Option<Seq<char>>)
    requires
        distinct_names(members),
    ensures
        match text {
            Some(t) => members.contains((name, DataView::Text(t))) <==> field(
                DataView::Object(members),
                0,
                name,
            ) == Some(DataView::Text(t)),
            None => lacks(members, name) <==> field(DataView::Object(members), 0, name) is None,
        },
{
    match text {
        Some(t) => lemma_member_is_found(members, name, DataView::Text(t)),
        None => lemma_member_is_found(members, name, DataView::Null),
    }
}

/// A configuration has the sections that its document has, wherever they stand:
/// each that is there has to be one, and none is made up for one that is not.
pub proof fn lemma_config(members: Members, config: ConfigView)
    requires
        distinct_names(members),
        config_of(DataView::Object(members)) == Ok::<ConfigView, Seq<char>>(config),
    ensures
        config.project is None <==> lacks(members, "project"@),
        config.model is None <==> lacks(members, "model"@),
        config.agent is None <==> lacks(members, "agent"@),
        config.memory is None <==> lacks(members, "memory"@),
        forall|i: int|
            0 <= i < members.len() ==> {
                &&& (#[trigger] members[i]).0 == "project"@ ==> config.project is Some
                    && project_of(members[i].1) == Ok::<ProjectView, Seq<char>>(
                    config.project->Some_0,
                )
                &&& members[i].0 == "model"@ ==> config.model is Some && model_of(members[i].1)
                    == Ok::<ModelConfigView, Seq<char>>(config.model->Some_0)
                &&& members[i].0 == "agent"@ ==> config.agent is Some && agent_of(members[i].1)
                    == Ok::<AgentView, Seq<char>>(config.agent->Some_0)
                &&& members[i].0 == "memory"@ ==> config.memory is Some && memory_of(
                    members[i].1,
                ) == Ok::<MemoryView, Seq<char>>(config.memory->Some_0)
            },
{
    lemma_member_is_found(members, "project"@, DataView::Null);
    lemma_member_is_found(members, "model"@, DataView::Null);
    lemma_member_is_found(members, "agent"@, DataView::Null);
    lemma_member_is_found(members, "memory"@, DataView::Null);
    assert forall|i: int| 0 <= i < members.len() implies {
        &&& (#[trigger] members[i]).0 == "project"@ ==> config.project is Some && project_of(
            members[i].1,
        ) == Ok::<ProjectView, Seq<char>>(config.project->Some_0)
        &&& members[i].0 == "model"@ ==> config.model is Some && model_of(members[i].1) == Ok::<
            ModelConfigView,
            Seq<char>,
        >(config.model->Some_0)
        &&& members[i].0 == "agent"@ ==> config.agent is Some && agent_of(members[i].1) == Ok::<
            AgentView,
            Seq<char>,
        >(config.agent->Some_0)
        &&& members[i].0 == "memory"@ ==> config.memory is Some && memory_of(members[i].1) == Ok::<
            MemoryView,
            Seq<char>,
        >(config.memory->Some_0)
    } by {
        assert(members.contains(members[i]));
        lemma_member_is_found(members, members[i].0, members[i].1);
    }
}

/// Where each section of a document is one, the document is a configuration.
pub proof fn lemma_config_is_read(members: Members)
    requires
        distinct_names(members),
        forall|i: int|
            0 <= i < members.len() ==> {
                &&& (#[trigger] members[i]).0 == "project"@ ==> project_of(members[i].1) is Ok
                &&& members[i].0 == "model"@ ==> model_of(members[i].1) is Ok
                &&& members[i].0 == "agent"@ ==> agent_of(members[i].1) is Ok
                &&& members[i].0 == "memory"@ ==> memory_of(members[i].1) is Ok
            },
    ensures
        config_of(DataView::Object(members)) is Ok,
{
    lemma_fits(ConfigFields, members);
    assert forall|k: int| 0 <= k < members.len() implies ConfigFields.misfit(
        (#[trigger] members[k]).0,
        members[k].1,
    ) is None by {
    }
    lemma_section_is_there(members, "project"@);
    lemma_section_is_there(members, "model"@);
    lemma_section_is_there(members, "agent"@);
    lemma_section_is_there(members, "memory"@);
}

proof fn lemma_section_is_there(members: Members, name: Seq<char>)
    requires
        distinct_names(members),
    ensures
        field(DataView::Object(members), 0, name) matches Some(v) ==> exists|i: int|
            0 <= i < members.len() && #[trigger] members[i] == (name, v),
{
    if let Some(v) = field(DataView::Object(members), 0, name) {
        lemma_member_is_found(members, name, v);
        let i = choose|i: int| 0 <= i < members.len() && members[i] == (name, v);
        assert(members[i] == (name, v));
    }
}

/// A script gives its responses one after another, each as said by the model,
/// and an error where none is left.
pub proof fn lemma_script(first: Seq<char>, rest: Seq<Seq<char>>)
    ensures
        scripted_reply(seq![first] + rest) == Ok::<MessageView, ProviderErrorView>(
            MessageView { role: Role::Assistant, content: first },
        ),
        script_after(seq![first] + rest) == rest,
        scripted_reply(Seq::empty()) == Err::<MessageView, ProviderErrorView>(
            ProviderErrorView::NoMoreResponses,
        ),
        script_after(Seq::empty()) == Seq::<Seq<char>>::empty(),
{
    assert((seq![first] + rest).drop_first() =~= rest);
}

/// A scripted provider gives the next response of its script, whatever it is
/// asked about, and has those behind it left.
pub proof fn lemma_mock(
    provider: MockProvider,
    session: SessionView,
    reply: Result<MessageView, ProviderErrorView>,
    next: MockProvider,
)
    ensures
        provider@.len() > 0 ==> (provider.completes(session, reply, next) <==> reply == Ok::<
            MessageView,
            ProviderErrorView,
        >(MessageView { role: Role::Assistant, content: provider@[0] }) && next@ == provider@.skip(
            1,
        )),
        provider@.len() == 0 ==> (provider.completes(session, reply, next) <==> reply == Err::<
            MessageView,
            ProviderErrorView,
        >(ProviderErrorView::NoMoreResponses) && next@.len() == 0),
{
    if provider@.len() > 0 {
        assert(provider@.skip(1) =~= provider@.drop_first());
    } else if next@.len() == 0 {
        assert(next@ =~= provider@);
    }
}

/// A response that succeeded is the reply that its body holds, said by the model;
/// one that did not is an error, whatever its body holds.
pub proof fn lemma_replied(
    code: u16,
    status: Seq<char>,
    url: Seq<char>,
    body: Seq<char>,
    content: Seq<char>,
)
    ensures
        code / 100 == 2 && response_content(json_of_text(body)) == Ok::<
            Seq<char>,
            ProviderErrorView,
        >(content) ==> replied(code, status, url, body) == Ok::<MessageView, ProviderErrorView>(
            MessageView { role: Role::Assistant, content },
        ),
        code / 100 == 2 && response_content(json_of_text(body)) is Err ==> replied(
            code,
            status,
            url,
            body,
        ) == Err::<MessageView, ProviderErrorView>(response_content(json_of_text(body))->Err_0),
        code / 100 != 2 ==> replied(code, status, url, body) == Err::<
            MessageView,
            ProviderErrorView,
        >(ProviderErrorView::Backend("HTTP "@ + status + " from "@ + url + ": "@ + body)),
        code / 100 == 2 ==> probed(code, status, url, body) == health_report(json_of_text(body)),
        code / 100 != 2 ==> probed(code, status, url, body) == Err::<
            HealthView,
            ProviderErrorView,
        >(ProviderErrorView::Backend("HTTP "@ + status + " from "@ + url + ": "@ + body)),
{
    lemma_status(code, status, url, body);
}

} // verus!
