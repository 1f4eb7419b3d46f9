//! What the job and its scheduler say to each other: one JSON object to a line.
use vstd::prelude::*;

use crate::args::JobArgs;
use crate::json::{
    insert_member, integer_value, is_flat, json_of, json_text, member, member_of, members,
    new_object, object_text, parse_json, parsed_json, text_member, text_value, Json, JsonObject,
};
use crate::text::{number_value, parse_i64};

verus! {

/// What an optional text reads.
pub open spec fn text_option(text: Option<String>) -> Option<Seq<char>> {
    match text {
        Some(t) => Some(t@),
        None => None,
    }
}

/// What an optional borrowed text reads.
pub open spec fn str_option(text: Option<&str>) -> Option<Seq<char>> {
    match text {
        Some(t) => Some(t@),
        None => None,
    }
}

/// The job's end of the connection to the scheduler.
pub struct IpcClient {
    pub socket_path: String,
    pub run_id: i64,
    pub topic: String,
    pub source_name: String,
    pub component: String,
}

/// A message as the scheduler shows it.
pub open spec fn labelled(client: IpcClient, message: Seq<char>) -> Seq<char> {
    client.topic@ + ": "@ + client.source_name@ + ": "@ + message
}

/// The members of an event. A status that is not given is unknown, a progress that is not given is
/// zero.
pub open spec fn event_members(
    client: IpcClient,
    event_type: Seq<char>,
    status: Option<Seq<char>>,
    message: Seq<char>,
    progress: Option<u8>,
) -> Map<Seq<char>, Json> {
    Map::empty().insert("run_id"@, Json::Integer(client.run_id as int)).insert(
        "type"@,
        Json::Text(event_type),
    ).insert("message"@, Json::Text(labelled(client, message))).insert(
        "component"@,
        Json::Text(client.component@),
    ).insert(
        "status"@,
        Json::Text(
            match status {
                Some(s) => s,
                None => "unknown"@,
            },
        ),
    ).insert(
        "progress"@,
        Json::Integer(
            match progress {
                Some(p) => p as int,
                None => 0,
            },
        ),
    )
}

/// Nothing in the names that the job uses is special.
proof fn lemma_names()
    ensures
        "run_id"@.len() > 0 && "run_id"@[0] == 'r',
        "type"@.len() > 0 && "type"@[0] == 't',
        "message"@.len() > 0 && "message"@[0] == 'm',
        "component"@.len() > 0 && "component"@[0] == 'c',
        "status"@.len() > 0 && "status"@[0] == 's',
        "progress"@.len() > 0 && "progress"@[0] == 'p',
{
    reveal_strlit("run_id");
    reveal_strlit("type");
    reveal_strlit("message");
    reveal_strlit("component");
    reveal_strlit("status");
    reveal_strlit("progress");
}

fn add_text(object: &mut JsonObject, name: &str, text: &str)
    ensures
        members(*final(object)) == members(*old(object)).insert(name@, Json::Text(text@)),
{
    insert_member(object, name.to_owned(), text_value(text.to_owned()));
}

fn add_integer(object: &mut JsonObject, name: &str, number: i64)
    ensures
        members(*final(object)) == members(*old(object)).insert(
            name@,
            Json::Integer(number as int),
        ),
{
    insert_member(object, name.to_owned(), integer_value(number));
}

/// The line for an object whose members are texts and integers.
fn line_of(object: &JsonObject) -> (line: String)
    requires
        is_flat(members(*object)),
    ensures
        line@ == json_text(members(*object)),
        !line@.contains('\n'),
        parsed_json(line@) == Some(Json::Object(members(*object))),
{
    object_text(object).unwrap()
}

impl IpcClient {
    /// The message with the topic and the source's name in front.
    pub fn message(&self, message: &str) -> (labelled_message: String)
        ensures
            labelled_message@ == labelled(*self, message@),
    {
        let mut text: String = self.topic.clone();
        text.append(": ");
        text.append(self.source_name.as_str());
        text.append(": ");
        text.append(message);
        text
    }

    /// The line that tells the scheduler of an event.
    pub fn event_line(
        &self,
        event_type: &str,
        status: Option<&str>,
        message: &str,
        progress: Option<u8>,
    ) -> (line: String)
        ensures
            ({
                let fields = event_members(
                    *self,
                    event_type@,
                    str_option(status),
                    message@,
                    progress,
                );
                &&& line@ == json_text(fields)
                &&& parsed_json(line@) == Some(Json::Object(fields))
                &&& !line@.contains('\n')
            }),
    {
        let mut event: JsonObject = new_object();
        add_integer(&mut event, "run_id", self.run_id);
        add_text(&mut event, "type", event_type);
        add_text(&mut event, "message", self.message(message).as_str());
        add_text(&mut event, "component", self.component.as_str());
        let shown: &str = match status {
            Some(s) => s,
            None => "unknown",
        };
        add_text(&mut event, "status", shown);
        let percent: u8 = match progress {
            Some(p) => p,
            None => 0,
        };
        add_integer(&mut event, "progress", percent as i64);
        proof {
            lemma_names();
        }
        line_of(&event)
    }
}

/// The members of a request for credentials.
pub open spec fn request_members(run_id: i64) -> Map<Seq<char>, Json> {
    Map::empty().insert("type"@, Json::Text("get_credentials"@)).insert(
        "run_id"@,
        Json::Integer(run_id as int),
    )
}

/// The line that asks the scheduler for the credentials of a run.
pub fn credentials_request(run_id: i64) -> (line: String)
    ensures
        line@ == json_text(request_members(run_id)),
        parsed_json(line@) == Some(Json::Object(request_members(run_id))),
        !line@.contains('\n'),
{
    let mut request: JsonObject = new_object();
    add_text(&mut request, "type", "get_credentials");
    add_integer(&mut request, "run_id", run_id);
    proof {
        lemma_names();
    }
    line_of(&request)
}

/// What the scheduler entrusts to the job.
pub struct Credentials {
    pub db_config_json: Option<String>,
    pub master_key: Option<String>,
}

/// Whether the credentials are those of the reply: the members of their names, where they are
/// texts.
pub open spec fn are_credentials_of(reply: Json, credentials: Credentials) -> bool {
    &&& text_option(credentials.db_config_json) == text_member(reply, "db_config_json"@)
    &&& text_option(credentials.master_key) == text_member(reply, "master_key"@)
}

/// Why the scheduler's credentials could not be had.
#[derive(Clone, Copy, PartialEq, Eq, Structural, Debug)]
pub enum CredentialsError {
    /// There is no scheduler to ask.
    NotUnderScheduler,
    /// The run's number is none.
    InvalidRunId,
    /// The scheduler's reply is no JSON.
    InvalidReply,
}

impl CredentialsError {
    pub fn message(&self) -> (message: String)
        ensures
            message@ == match *self {
                CredentialsError::NotUnderScheduler => "not running under scheduler"@,
                CredentialsError::InvalidRunId => "invalid RUN_ID"@,
                CredentialsError::InvalidReply => "scheduler returned invalid JSON"@,
            },
    {
        match self {
            CredentialsError::NotUnderScheduler => "not running under scheduler".to_owned(),
            CredentialsError::InvalidRunId => "invalid RUN_ID".to_owned(),
            CredentialsError::InvalidReply => "scheduler returned invalid JSON".to_owned(),
        }
    }
}

/// The number of a run, where the text spells one of 64 bits.
pub open spec fn run_number(text: Seq<char>) -> Option<int> {
    match number_value(text, true) {
        Some(n) => if i64::MIN <= n <= i64::MAX {
            Some(n)
        } else {
            None
        },
        None => None,
    }
}

/// Where to ask for credentials, and for which run, by what the environment says.
pub fn scheduler_address(socket_path: Option<String>, run_id: Option<String>) -> (address: Result<
    (String, i64),
    CredentialsError,
>)
    ensures
        address == match (socket_path, run_id) {
            (Some(path), Some(id)) => match run_number(id@) {
                Some(n) => Ok((path, n as i64)),
                None => Err(CredentialsError::InvalidRunId),
            },
            _ => Err(CredentialsError::NotUnderScheduler),
        },
{
    match (socket_path, run_id) {
        (Some(path), Some(id)) => match parse_i64(id.as_str()) {
            Some(n) => Ok((path, n)),
            None => Err(CredentialsError::InvalidRunId),
        },
        _ => Err(CredentialsError::NotUnderScheduler),
    }
}

fn text_of_member(reply: &serde_json::Value, name: &str) -> (text: Option<String>)
    ensures
        text_option(text) == text_member(json_of(*reply), name@),
{
    match member(reply, name) {
        Some(value) => match value.as_str() {
            Some(text) => Some(text.to_owned()),
            None => None,
        },
        None => None,
    }
}

/// The credentials in a reply of the scheduler.
pub fn credentials_in(reply: &serde_json::Value) -> (credentials: Credentials)
    ensures
        are_credentials_of(json_of(*reply), credentials),
{
    Credentials {
        db_config_json: text_of_member(reply, "db_config_json"),
        master_key: text_of_member(reply, "master_key"),
    }
}

/// The credentials in the line that the scheduler replied with.
pub fn read_credentials(line: &str) -> (credentials: Result<Credentials, CredentialsError>)
    ensures
        match parsed_json(line@) {
            Some(reply) => credentials matches Ok(c) && are_credentials_of(reply, c),
            None => credentials == Err::<Credentials, _>(CredentialsError::InvalidReply),
        },
{
    match parse_json(line) {
        Some(reply) => Ok(credentials_in(&reply)),
        None => Err(CredentialsError::InvalidReply),
    }
}

/// What holds where the scheduler may give a value for a variable: a value that is given takes the
/// variable's place.
pub fn overridden(given: Option<String>, variable: Option<String>) -> (value: Option<String>)
    ensures
        value == (if given is Some {
            given
        } else {
            variable
        }),
{
    match given {
        Some(value) => Some(value),
        None => variable,
    }
}

/// What is said when the credentials could not be had; nothing where there is no scheduler.
pub fn credentials_warning(run_id_set: bool, socket_path_set: bool, error: &str) -> (warning: Option<
    String,
>)
    ensures
        text_option(warning) == if run_id_set && socket_path_set {
            Some("[IPC WARNING] Failed to get credentials from scheduler: "@ + error@)
        } else {
            None
        },
{
    if run_id_set && socket_path_set {
        let mut text: String = "[IPC WARNING] Failed to get credentials from scheduler: ".to_owned();
        text.append(error);
        Some(text)
    } else {
        None
    }
}

/// The connection to the scheduler, where the environment names its socket and a run.
pub fn ipc_client(
    args: &JobArgs,
    socket_path: Option<String>,
    run_id: Option<String>,
) -> (client: Option<IpcClient>)
    ensures
        match client {
            Some(c) => {
                &&& socket_path is Some && run_id is Some
                &&& run_number(run_id->0@) == Some(c.run_id as int)
                &&& c.socket_path == socket_path->0
                &&& c.topic@ == args.topic@
                &&& c.source_name@ == args.source_name@
                &&& c.component@ == "mitm_transformation"@
            },
            None => socket_path is None || run_id is None || run_number(run_id->0@) is None,
        },
{
    match scheduler_address(socket_path, run_id) {
        Ok((path, id)) => Some(
            IpcClient {
                socket_path: path,
                run_id: id,
                topic: args.topic.clone(),
                source_name: args.source_name.clone(),
                component: "mitm_transformation".to_owned(),
            },
        ),
        Err(_) => None,
    }
}

/// An event tells what it was made of, and nothing else.
pub proof fn law_event_tells_what_it_was_given(
    client: IpcClient,
    event_type: Seq<char>,
    status: Option<Seq<char>>,
    message: Seq<char>,
    progress: Option<u8>,
)
    ensures
        ({
            let fields = event_members(client, event_type, status, message, progress);
            let event = Json::Object(fields);
            &&& member_of(event, "run_id"@) == Some(Json::Integer(client.run_id as int))
            &&& text_member(event, "type"@) == Some(event_type)
            &&& text_member(event, "message"@) == Some(labelled(client, message))
            &&& text_member(event, "component"@) == Some(client.component@)
            &&& text_member(event, "status"@) == match status {
                Some(s) => Some(s),
                None => Some("unknown"@),
            }
            &&& member_of(event, "progress"@) == match progress {
                Some(p) => Some(Json::Integer(p as int)),
                None => Some(Json::Integer(0)),
            }
            &&& fields.dom() == set![
                "run_id"@,
                "type"@,
                "message"@,
                "component"@,
                "status"@,
                "progress"@,
            ]
        }),
{
    lemma_names();
    assert(event_members(client, event_type, status, message, progress).dom() =~= set![
        "run_id"@,
        "type"@,
        "message"@,
        "component"@,
        "status"@,
        "progress"@,
    ]);
}

/// A request tells what is asked for, and by which run.
pub proof fn law_request_tells_its_run(run_id: i64)
    ensures
        text_member(Json::Object(request_members(run_id)), "type"@) == Some("get_credentials"@),
        member_of(Json::Object(request_members(run_id)), "run_id"@) == Some(
            Json::Integer(run_id as int),
        ),
{
    lemma_names();
}

/// A message is shown after the topic and the source's name.
pub proof fn law_message_names_topic_and_source(
    client: &IpcClient,
    message: &str,
    shown: String,
)
    requires
        call_ensures(IpcClient::message, (client, message), shown),
    ensures
        shown@ == client.topic@ + ": "@ + client.source_name@ + ": "@ + message@,
{
}

/// The line of an event is one line, and reads as an object of six members: the run, the type, the
/// message as it is shown, the component, the status or `unknown`, and the progress or zero.
pub proof fn law_event_line_reads_as_the_event(
    client: &IpcClient,
    event_type: &str,
    status: Option<&str>,
    message: &str,
    progress: Option<u8>,
    line: String,
)
    requires
        call_ensures(
            IpcClient::event_line,
            (client, event_type, status, message, progress),
            line,
        ),
    ensures
        !line@.contains('\n'),
        parsed_json(line@) matches Some(Json::Object(fields)) && {
            &&& forall|name: Seq<char>| #[trigger]
                fields.contains_key(name) <==> {
                    ||| name == "run_id"@
                    ||| name == "type"@
                    ||| name == "message"@
                    ||| name == "component"@
                    ||| name == "status"@
                    ||| name == "progress"@
                }
            &&& fields["run_id"@] == Json::Integer(client.run_id as int)
            &&& fields["type"@] == Json::Text(event_type@)
            &&& fields["message"@] == Json::Text(
                client.topic@ + ": "@ + client.source_name@ + ": "@ + message@,
            )
            &&& fields["component"@] == Json::Text(client.component@)
            &&& status matches Some(s) ==> fields["status"@] == Json::Text(s@)
            &&& status is None ==> fields["status"@] == Json::Text("unknown"@)
            &&& progress matches Some(p) ==> fields["progress"@] == Json::Integer(p as int)
            &&& progress is None ==> fields["progress"@] == Json::Integer(0)
            &&& line@ == json_text(fields)
        },
{
    lemma_names();
}

/// The line of a request is one line, and reads as an object of two members: what is asked for, and
/// the run.
pub proof fn law_request_line_reads_as_the_request(run_id: i64, line: String)
    requires
        call_ensures(credentials_request, (run_id,), line),
    ensures
        !line@.contains('\n'),
        parsed_json(line@) matches Some(Json::Object(fields)) && {
            &&& forall|name: Seq<char>| #[trigger]
                fields.contains_key(name) <==> name == "type"@ || name == "run_id"@
            &&& fields["type"@] == Json::Text("get_credentials"@)
            &&& fields["run_id"@] == Json::Integer(run_id as int)
            &&& line@ == json_text(fields)
        },
{
    lemma_names();
}

/// The credentials of a reply are the texts that it has under their names; where it is no object, or
/// has no such member, or another kind of value there, there is none.
pub proof fn law_credentials_are_the_texts_of_the_reply(
    reply: &serde_json::Value,
    credentials: Credentials,
)
    requires
        call_ensures(credentials_in, (reply,), credentials),
    ensures
        credentials.db_config_json matches Some(text) ==> {
            &&& json_of(*reply) is Object
            &&& json_of(*reply)->Object_0.contains_key("db_config_json"@)
            &&& json_of(*reply)->Object_0["db_config_json"@] == Json::Text(text@)
        },
        credentials.db_config_json is None ==> {
            ||| !(json_of(*reply) is Object)
            ||| !json_of(*reply)->Object_0.contains_key("db_config_json"@)
            ||| !(json_of(*reply)->Object_0["db_config_json"@] is Text)
        },
        credentials.master_key matches Some(text) ==> {
            &&& json_of(*reply) is Object
            &&& json_of(*reply)->Object_0.contains_key("master_key"@)
            &&& json_of(*reply)->Object_0["master_key"@] == Json::Text(text@)
        },
        credentials.master_key is None ==> {
            ||| !(json_of(*reply) is Object)
            ||| !json_of(*reply)->Object_0.contains_key("master_key"@)
            ||| !(json_of(*reply)->Object_0["master_key"@] is Text)
        },
{
}

/// A line that reads as JSON gives the texts that it has under the names of the credentials, and
/// never an error; one that does not is no reply.
pub proof fn law_reply_line_gives_its_credentials(
    line: &str,
    credentials: Result<Credentials, CredentialsError>,
)
    requires
        call_ensures(read_credentials, (line,), credentials),
    ensures
        parsed_json(line@) is None ==> credentials == Err::<Credentials, _>(
            CredentialsError::InvalidReply,
        ),
        parsed_json(line@) matches Some(reply) ==> {
            &&& credentials is Ok
            &&& credentials->Ok_0.db_config_json matches Some(text) ==> {
                &&& reply is Object
                &&& reply->Object_0.contains_key("db_config_json"@)
                &&& reply->Object_0["db_config_json"@] == Json::Text(text@)
            }
            &&& credentials->Ok_0.db_config_json is None ==> {
                ||| !(reply is Object)
                ||| !reply->Object_0.contains_key("db_config_json"@)
                ||| !(reply->Object_0["db_config_json"@] is Text)
            }
            &&& credentials->Ok_0.master_key matches Some(text) ==> {
                &&& reply is Object
                &&& reply->Object_0.contains_key("master_key"@)
                &&& reply->Object_0["master_key"@] == Json::Text(text@)
            }
            &&& credentials->Ok_0.master_key is None ==> {
                ||| !(reply is Object)
                ||| !reply->Object_0.contains_key("master_key"@)
                ||| !(reply->Object_0["master_key"@] is Text)
            }
        },
{
}

/// The scheduler is asked where both its socket and a run are named, and the run's name reads as a
/// number.
pub proof fn law_scheduler_is_asked_for_the_run(
    socket_path: Option<String>,
    run_id: Option<String>,
    address: Result<(String, i64), CredentialsError>,
    text: &str,
    number: Option<i64>,
)
    requires
        call_ensures(scheduler_address, (socket_path, run_id), address),
        run_id matches Some(id) ==> text@ == id@,
        call_ensures(parse_i64, (text,), number),
    ensures
        socket_path is None || run_id is None ==> address == Err::<(String, i64), _>(
            CredentialsError::NotUnderScheduler,
        ),
        socket_path is Some && run_id is Some && number is None ==> address == Err::<
            (String, i64),
            _,
        >(CredentialsError::InvalidRunId),
        socket_path is Some && run_id is Some && number is Some ==> {
            &&& address is Ok
            &&& address->Ok_0.0@ == socket_path->0@
            &&& address->Ok_0.1 == number->0
        },
{
}

/// There is a connection to the scheduler where both its socket and a run are named, and the run's
/// name reads as a number; it carries these and what the arguments say of the job.
pub proof fn law_connection_is_for_the_run(
    args: &JobArgs,
    socket_path: Option<String>,
    run_id: Option<String>,
    client: Option<IpcClient>,
    text: &str,
    number: Option<i64>,
)
    requires
        call_ensures(ipc_client, (args, socket_path, run_id), client),
        run_id matches Some(id) ==> text@ == id@,
        call_ensures(parse_i64, (text,), number),
    ensures
        client is Some <==> socket_path is Some && run_id is Some && number is Some,
        client matches Some(c) ==> {
            &&& c.socket_path@ == socket_path->0@
            &&& c.run_id == number->0
            &&& c.topic@ == args.topic@
            &&& c.source_name@ == args.source_name@
            &&& c.component@ == "mitm_transformation"@
        },
{
}

/// A value that the scheduler gives takes the place of a variable; without one the variable stands.
pub proof fn law_given_value_takes_the_variables_place(
    given: Option<String>,
    variable: Option<String>,
    value: Option<String>,
)
    requires
        call_ensures(overridden, (given, variable), value),
    ensures
        value is Some <==> given is Some || variable is Some,
        given is Some ==> value->0@ == given->0@,
        given is None && variable is Some ==> value->0@ == variable->0@,
{
}

/// Missing credentials are warned of exactly where there is a scheduler and a run, with the reason.
pub proof fn law_missing_credentials_are_warned_of(
    run_id_set: bool,
    socket_path_set: bool,
    error: &str,
    warning: Option<String>,
)
    requires
        call_ensures(credentials_warning, (run_id_set, socket_path_set, error), warning),
    ensures
        warning is Some <==> run_id_set && socket_path_set,
        warning matches Some(text) ==> text@
            == "[IPC WARNING] Failed to get credentials from scheduler: "@ + error@,
{
}

/// What is said where the credentials cannot be had.
pub proof fn law_credentials_error_says_why(error: &CredentialsError, message: String)
    requires
        call_ensures(CredentialsError::message, (error,), message),
    ensures
        error is NotUnderScheduler ==> message@ == "not running under scheduler"@,
        error is InvalidRunId ==> message@ == "invalid RUN_ID"@,
        error is InvalidReply ==> message@ == "scheduler returned invalid JSON"@,
{
}

} // verus!
