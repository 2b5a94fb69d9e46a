//! The query composer and the shape of the exchange with the completion
//! service. Reading the files and sending the request happen outside: this
//! module takes what was read and gives what is to be sent.

use crate::app::App;
use crate::prompt::SYSTEM_PROMPT;
use crate::widgets::tree_model::rendered_tree;
use vstd::prelude::*;
use vstd::string::StringExecFns;

verus! {

/// The model that requests are addressed to.
pub const MODEL: &'static str = "gpt-4";

/// An included file as it was found at dispatch time: its path, and its
/// contents, or `None` where it could not be read.
pub struct FileRead {
    pub path: String,
    pub contents: Option<String>,
}

/// The model of a [`FileRead`].
pub struct Source {
    pub path: Seq<char>,
    pub contents: Option<Seq<char>>,
}

impl View for FileRead {
    type V = Source;

    open spec fn view(&self) -> Source {
        Source {
            path: self.path@,
            contents: match self.contents {
                Some(text) => Some(text@),
                None => None,
            },
        }
    }
}

/// The models of a list of files.
pub open spec fn sources_of(files: Seq<FileRead>) -> Seq<Source> {
    Seq::new(files.len(), |i: int| files[i]@)
}

/// Why no query could be composed.
pub enum ComposeError {
    /// The file at this path is included and could not be read.
    FileReadFailure(String),
}

/// The part of the query that comes before the file blocks: the prompt, a
/// blank line, the tree under its heading, a blank line, and the heading of
/// the file contents.
pub open spec fn query_head(prompt: Seq<char>, tree: Seq<char>) -> Seq<char> {
    prompt + "\n\n"@ + "### File Tree:\n"@ + tree + "\n\n"@ + "### File Contents:\n"@
}

/// The fenced block of one file: its path in a comment line, then its
/// contents.
pub open spec fn file_block(path: Seq<char>, contents: Seq<char>) -> Seq<char> {
    "```\n// "@ + path + "\n"@ + contents + "\n```\n"@
}

/// The blocks of the first `n` files, one after the other.
pub open spec fn blocks_below(files: Seq<Source>, n: int) -> Seq<char>
    decreases n,
{
    if n <= 0 {
        Seq::empty()
    } else {
        blocks_below(files, n - 1) + file_block(
            files[n - 1].path,
            files[n - 1].contents.unwrap_or(Seq::empty()),
        )
    }
}

/// The whole query over files that were all read.
pub open spec fn composed(prompt: Seq<char>, tree: Seq<char>, files: Seq<Source>) -> Seq<char> {
    query_head(prompt, tree) + blocks_below(files, files.len() as int)
}

/// File `i` is the first that could not be read.
pub open spec fn first_unreadable(files: Seq<Source>, i: int) -> bool {
    &&& 0 <= i < files.len()
    &&& files[i].contents is None
    &&& forall|j: int| 0 <= j < i ==> (#[trigger] files[j]).contents is Some
}

/// Composes the query from the prompt, the rendered tree and the included
/// files in their order. If any file could not be read, nothing is composed
/// and the error names the first such file.
pub fn construct_query(query: &str, tree: &str, files: &Vec<FileRead>) -> (result: Result<
    String,
    ComposeError,
>)
    ensures
        match result {
            Ok(text) => {
                &&& forall|i: int|
                    0 <= i < files.len() ==> (#[trigger] sources_of(files@)[i]).contents is Some
                &&& text@ == composed(query@, tree@, sources_of(files@))
            },
            Err(ComposeError::FileReadFailure(path)) => exists|i: int|
                first_unreadable(sources_of(files@), i) && path@ == (#[trigger] sources_of(
                    files@,
                )[i]).path,
        },
        files.len() == 0 ==> (result matches Ok(text) && text@ == query_head(query@, tree@)),
{
    let ghost sources = sources_of(files@);
    let mut text = String::from_str(query);
    text.append("\n\n");
    text.append("### File Tree:\n");
    text.append(tree);
    text.append("\n\n");
    text.append("### File Contents:\n");
    let mut idx: usize = 0;
    while idx < files.len()
        invariant
            idx <= files.len(),
            sources == sources_of(files@),
            forall|i: int| 0 <= i < idx ==> (#[trigger] sources[i]).contents is Some,
            text@ == query_head(query@, tree@) + blocks_below(sources, idx as int),
        decreases files.len() - idx,
    {
        let file = &files[idx];
        assert(sources[idx as int] == file@);
        match &file.contents {
            Some(contents) => {
                let ghost before = text@;
                text.append("```\n// ");
                text.append(file.path.as_str());
                text.append("\n");
                text.append(contents.as_str());
                text.append("\n```\n");
                assert(text@ =~= before + file_block(file.path@, contents@));
                assert(text@ =~= query_head(query@, tree@) + blocks_below(
                    sources,
                    idx as int + 1,
                ));
            },
            None => {
                assert(first_unreadable(sources, idx as int));
                return Err(ComposeError::FileReadFailure(file.path.clone()));
            },
        }
        idx += 1;
    }
    Ok(text)
}

/// Who speaks in a message.
#[derive(Clone, Copy, Debug, PartialEq, Eq, Structural)]
pub enum Role {
    System,
    User,
    Assistant,
}

/// One turn of the conversation.
pub struct Message {
    pub role: Role,
    pub content: String,
}

/// The request: the model it is addressed to, and the turns so far.
pub struct Chat {
    pub model: String,
    pub messages: Vec<Message>,
}

/// One completion that the service offers.
pub struct Choice {
    pub message: Message,
}

/// The response of the service.
pub struct Completion {
    pub model: String,
    pub choices: Vec<Choice>,
}

/// The model of a [`Message`].
pub struct Turn {
    pub role: Role,
    pub content: Seq<char>,
}

/// The model of a [`Chat`].
pub struct Request {
    pub model: Seq<char>,
    pub turns: Seq<Turn>,
}

impl View for Message {
    type V = Turn;

    open spec fn view(&self) -> Turn {
        Turn { role: self.role, content: self.content@ }
    }
}

impl View for Chat {
    type V = Request;

    open spec fn view(&self) -> Request {
        Request {
            model: self.model@,
            turns: Seq::new(self.messages@.len(), |i: int| self.messages@[i]@),
        }
    }
}

/// The request that carries a query: the fixed instruction as the system
/// turn, then the query as the user turn.
pub open spec fn request_for(query: Seq<char>) -> Request {
    Request {
        model: MODEL@,
        turns: seq![
            Turn { role: Role::System, content: SYSTEM_PROMPT@ },
            Turn { role: Role::User, content: query },
        ],
    }
}

impl Chat {
    /// The request that carries the given query.
    pub fn new_from_query(query: &str) -> (chat: Chat)
        ensures
            chat@ == request_for(query@),
    {
        let mut messages: Vec<Message> = Vec::new();
        messages.push(Message { role: Role::System, content: SYSTEM_PROMPT.to_owned() });
        messages.push(Message { role: Role::User, content: query.to_owned() });
        let chat = Chat { model: MODEL.to_owned(), messages };
        assert(chat@.turns =~= request_for(query@).turns);
        chat
    }
}

/// The request for the state at dispatch time: the query composed from the
/// prompt as typed, the whole tree as text, and the files as they were read.
pub fn build_request(app: &App, files: &Vec<FileRead>) -> (result: Result<Chat, ComposeError>)
    ensures
        match result {
            Ok(chat) => {
                &&& forall|i: int|
                    0 <= i < files.len() ==> (#[trigger] sources_of(files@)[i]).contents is Some
                &&& chat@ == request_for(
                    composed(app@.prompt, rendered_tree(app@.browser.entries), sources_of(files@)),
                )
            },
            Err(ComposeError::FileReadFailure(path)) => exists|i: int|
                first_unreadable(sources_of(files@), i) && path@ == (#[trigger] sources_of(
                    files@,
                )[i]).path,
        },
{
    let prompt_text = app.prompt_editor_state.get_display_text();
    let tree = app.file_browser_state.get_entire_tree();
    match construct_query(prompt_text, tree.as_str(), files) {
        Ok(query) => Ok(Chat::new_from_query(query.as_str())),
        Err(error) => Err(error),
    }
}

/// Whether the service took the request: only status 200 counts. On any
/// other status there is no reply to read, and the result of the dispatch is
/// the empty text.
pub fn service_accepted(status: u16) -> (accepted: bool)
    ensures
        accepted == (status == 200),
{
    status == 200
}

impl Completion {
    /// The text of the reply: the content of the first choice.
    pub fn first_reply(&self) -> (reply: String)
        requires
            self.choices@.len() > 0,
        ensures
            reply@ == self.choices@[0].message.content@,
    {
        self.choices[0].message.content.clone()
    }
}

/// With no file included the query is the head alone: the prompt and the
/// tree section, followed by the heading of the file contents and no block.
pub proof fn lemma_composed_without_files(prompt: Seq<char>, tree: Seq<char>)
    ensures
        composed(prompt, tree, Seq::empty()) == query_head(prompt, tree),
{
    assert(composed(prompt, tree, Seq::empty()) =~= query_head(prompt, tree));
}

} // verus!
