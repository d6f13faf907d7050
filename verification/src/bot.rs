//! The remote-control surface: commands, the decisions of the polling loop,
//! and the text of the report.

use vstd::prelude::*;

use crate::task::{ArtifactInfo, TorrentTaskInfo};

verus! {

/// A command of the operator.
#[derive(Debug, Clone, Copy, PartialEq, Eq, Structural)]
pub enum BotCommand {
    /// Poll the seed host now.
    PullJob,
    /// Start a transfer batch now.
    TransferJob,
    /// Report what is ready at the seed host and at the relay.
    ReportAvailable,
}

/// Why the command channel gave no command.
#[derive(Debug)]
pub enum TelegramBotError {
    /// The bot was not started, or was stopped already.
    NotRunning,
    /// The command channel is closed.
    ChannelClosed,
    /// The polling task did not end cleanly; the text says how.
    ShutdownFailed(String),
}

/// The text of a [`TelegramBotError`].
pub open spec fn bot_error_text(error: TelegramBotError) -> Seq<char> {
    match error {
        TelegramBotError::NotRunning => "bot not running"@,
        TelegramBotError::ChannelClosed => "command channel closed"@,
        TelegramBotError::ShutdownFailed(cause) => "shutdown failed: "@ + cause@,
    }
}

impl TelegramBotError {
    /// The error as a line of text.
    pub fn message(&self) -> (text: String)
        ensures
            text@ == bot_error_text(*self),
    {
        match self {
            TelegramBotError::NotRunning => String::from_str("bot not running"),
            TelegramBotError::ChannelClosed => String::from_str("command channel closed"),
            TelegramBotError::ShutdownFailed(cause) => {
                let mut text = String::from_str("shutdown failed: ");
                text.append(cause.as_str());
                text
            },
        }
    }
}

/// The index of the first space in `text`, or its length where it has none.
pub open spec fn first_space(text: Seq<char>) -> int
    decreases text.len(),
{
    if text.len() == 0 {
        0
    } else if text[0] == ' ' {
        0
    } else {
        1 + first_space(text.drop_first())
    }
}

/// The word of a command message: what stands between the leading slash and
/// the first space. A message without a leading slash has none.
pub open spec fn command_word(input: Seq<char>) -> Option<Seq<char>> {
    if input.len() > 0 && input[0] == '/' {
        let body = input.drop_first();
        Some(body.take(first_space(body)))
    } else {
        None
    }
}

/// The command that a message asks for.
pub open spec fn parsed_command(input: Seq<char>) -> Option<BotCommand> {
    match command_word(input) {
        Some(word) => if word == "pull"@ {
            Some(BotCommand::PullJob)
        } else if word == "transfer"@ {
            Some(BotCommand::TransferJob)
        } else if word == "report"@ {
            Some(BotCommand::ReportAvailable)
        } else {
            None
        },
        None => None,
    }
}

/// Whether `text` holds no space.
pub open spec fn spaceless(text: Seq<char>) -> bool {
    forall|i: int| 0 <= i < text.len() ==> text[i] != ' '
}

/// Whether `input` is a slash, then `word`, then nothing or a space.
pub open spec fn names_command(input: Seq<char>, word: Seq<char>) -> bool {
    &&& input.len() > word.len()
    &&& input[0] == '/'
    &&& input.subrange(1, 1 + word.len() as int) == word
    &&& (input.len() == 1 + word.len() as int || input[1 + word.len() as int] == ' ')
}

/// The first space lies within the text, on a space unless at the end, and
/// nothing before it is a space.
pub proof fn lemma_first_space(text: Seq<char>)
    ensures
        0 <= first_space(text) <= text.len(),
        first_space(text) < text.len() ==> text[first_space(text)] == ' ',
        forall|i: int| 0 <= i < first_space(text) ==> text[i] != ' ',
    decreases text.len(),
{
    if text.len() > 0 && text[0] != ' ' {
        let rest = text.drop_first();
        lemma_first_space(rest);
        assert forall|i: int| 0 <= i < first_space(text) implies text[i] != ' ' by {
            if i > 0 {
                assert(text[i] == rest[i - 1]);
            }
        }
    }
}

/// A message names a word without spaces exactly when that word is its
/// command word.
pub proof fn lemma_names_command(input: Seq<char>, word: Seq<char>)
    requires
        spaceless(word),
    ensures
        names_command(input, word) <==> command_word(input) == Some(word),
{
    if input.len() > 0 && input[0] == '/' {
        let body = input.drop_first();
        let stop = first_space(body);
        lemma_first_space(body);
        if names_command(input, word) {
            assert forall|i: int| 0 <= i < word.len() implies body[i] != ' ' by {
                assert(input.subrange(1, 1 + word.len() as int)[i] == word[i]);
            }
            if stop < word.len() {
                assert(body[stop] == ' ');
            }
            if stop > word.len() {
                assert(body[word.len() as int] == input[1 + word.len() as int]);
            }
            assert(body.take(stop) =~= word);
        }
        if command_word(input) == Some(word) {
            assert(body.take(stop) == word);
            assert(input.subrange(1, 1 + word.len() as int) =~= body.take(stop));
            if input.len() != 1 + word.len() as int {
                assert(body[stop] == input[1 + word.len() as int]);
            }
        }
    }
}

/// Whether `input` is a slash, then `word`, then nothing or a space.
fn names(input: &str, length: usize, word: &str) -> (named: bool)
    requires
        length == input@.len(),
    ensures
        named == names_command(input@, word@),
{
    let word_length = word.unicode_len();
    if length <= word_length {
        return false;
    }
    if input.get_char(0) != '/' {
        return false;
    }
    let mut i: usize = 0;
    while i < word_length
        invariant
            i <= word_length,
            word_length == word@.len(),
            word_length < length,
            length == input@.len(),
            forall|k: int| 0 <= k < i ==> input@[1 + k] == word@[k],
        decreases word_length - i,
    {
        if input.get_char(i + 1) != word.get_char(i) {
            proof {
                assert(input@.subrange(1, 1 + word@.len() as int)[i as int] == input@[1 + i]);
            }
            return false;
        }
        i += 1;
    }
    proof {
        assert(input@.subrange(1, 1 + word@.len() as int) =~= word@);
    }
    length == word_length + 1 || input.get_char(word_length + 1) == ' '
}

impl BotCommand {
    /// Reads a command message: a slash, the command word, and after a space
    /// whatever else, which is ignored. The words are `pull`, `transfer` and
    /// `report`; any other message is no command.
    pub fn parse(input: &str) -> (command: Option<BotCommand>)
        ensures
            command == parsed_command(input@),
    {
        let length = input.unicode_len();
        proof {
            reveal_strlit("pull");
            reveal_strlit("transfer");
            reveal_strlit("report");
            lemma_names_command(input@, "pull"@);
            lemma_names_command(input@, "transfer"@);
            lemma_names_command(input@, "report"@);
        }
        if names(input, length, "pull") {
            Some(BotCommand::PullJob)
        } else if names(input, length, "transfer") {
            Some(BotCommand::TransferJob)
        } else if names(input, length, "report") {
            Some(BotCommand::ReportAvailable)
        } else {
            None
        }
    }

    /// The name under which the command is offered to the operator.
    pub fn word(self) -> (word: &'static str)
        ensures
            word@ == command_name(self),
    {
        match self {
            BotCommand::PullJob => "pull",
            BotCommand::TransferJob => "transfer",
            BotCommand::ReportAvailable => "report",
        }
    }
}

/// The name under which a command is offered to the operator.
pub open spec fn command_name(command: BotCommand) -> Seq<char> {
    match command {
        BotCommand::PullJob => "pull"@,
        BotCommand::TransferJob => "transfer"@,
        BotCommand::ReportAvailable => "report"@,
    }
}


/// The shortest pause after a failed poll, in seconds.
pub const MIN_RETRY_DELAY: u64 = 1;

/// The longest pause after a failed poll, in seconds.
pub const MAX_RETRY_DELAY: u64 = 60;

/// A message as it arrives: the chat it was sent in and its text, if it has
/// one.
#[derive(Debug)]
pub struct IncomingMessage {
    pub chat_id: i64,
    pub text: Option<String>,
}

/// An update as it arrives: its number, and the message it carries if it
/// carries one.
#[derive(Debug)]
pub struct IncomingUpdate {
    pub update_id: u32,
    pub message: Option<IncomingMessage>,
}

/// What the polling loop remembers between polls.
#[derive(Debug, Clone, Copy)]
pub struct PollState {
    /// How long to pause after the next failed poll, in seconds.
    pub retry_delay: u64,
    /// The number from which updates are asked for, once one was handled.
    pub offset: Option<i64>,
}

/// The pause after the failure that follows a pause of `delay` seconds:
/// twice as long, but no longer than the longest pause.
pub open spec fn next_retry_delay(delay: u64) -> u64 {
    if delay * 2 <= MAX_RETRY_DELAY {
        (delay * 2) as u64
    } else {
        MAX_RETRY_DELAY
    }
}

/// Whether the polling loop handles an update for the chat `chat_id`: it
/// carries a message, and the message was sent in that chat.
pub open spec fn handles_update(chat_id: i64, update: IncomingUpdate) -> bool {
    update.message matches Some(message) && message.chat_id == chat_id
}

/// The command that a handled update asks for, if its message has a text
/// and the text is a command.
pub open spec fn update_command(update: IncomingUpdate) -> Option<BotCommand> {
    match update.message {
        Some(message) => match message.text {
            Some(text) => parsed_command(text@),
            None => None,
        },
        None => None,
    }
}

impl PollState {
    /// The state before the first poll.
    pub fn new() -> (state: PollState)
        ensures
            state.retry_delay == MIN_RETRY_DELAY,
            state.offset.is_none(),
    {
        PollState { retry_delay: MIN_RETRY_DELAY, offset: None }
    }

    /// Whether the polling loop handles an update for the chat `chat_id`.
    pub fn handles(chat_id: i64, update: &IncomingUpdate) -> (handled: bool)
        ensures
            handled == handles_update(chat_id, *update),
    {
        match &update.message {
            Some(message) => message.chat_id == chat_id,
            None => false,
        }
    }

    /// Notes a failed poll. The result is the pause to make now, in seconds;
    /// the pause after the next failure is twice as long, up to the longest.
    pub fn on_failure(&mut self) -> (pause: u64)
        ensures
            pause == old(self).retry_delay,
            final(self).retry_delay == next_retry_delay(old(self).retry_delay),
            final(self).retry_delay <= MAX_RETRY_DELAY,
            final(self).offset == old(self).offset,
    {
        let pause = self.retry_delay;
        self.retry_delay = if pause <= MAX_RETRY_DELAY / 2 {
            pause * 2
        } else {
            MAX_RETRY_DELAY
        };
        pause
    }

    /// Notes a poll that was answered: the next failure is followed by the
    /// shortest pause again.
    pub fn on_success(&mut self)
        ensures
            final(self).retry_delay == MIN_RETRY_DELAY,
            final(self).offset == old(self).offset,
    {
        self.retry_delay = MIN_RETRY_DELAY;
    }

    /// Takes one update of an answered poll. An update that carries no
    /// message, or a message from another chat, is passed over. Any other
    /// update is handled: later polls ask for the updates after it, and the
    /// result is the command that its text asks for, if any.
    pub fn on_update(&mut self, chat_id: i64, update: &IncomingUpdate) -> (command: Option<
        BotCommand,
    >)
        ensures
            final(self).retry_delay == old(self).retry_delay,
            handles_update(chat_id, *update) ==> {
                &&& command == update_command(*update)
                &&& final(self).offset == Some((update.update_id + 1) as i64)
            },
            !handles_update(chat_id, *update) ==> {
                &&& command.is_none()
                &&& final(self).offset == old(self).offset
            },
    {
        match &update.message {
            Some(message) => {
                if message.chat_id != chat_id {
                    return None;
                }
                let command = match &message.text {
                    Some(text) => BotCommand::parse(text.as_str()),
                    None => None,
                };
                let number: i64 = update.update_id as i64;
                self.offset = Some(number + 1);
                command
            },
            None => None,
        }
    }
}

/// The entry of one item in the report.
pub open spec fn report_entry(name: Seq<char>, hash: Seq<char>) -> Seq<char> {
    "\n- "@ + name + " \n  ("@ + hash + ")\n"@
}

/// The entries of the first `count` torrents.
pub open spec fn torrent_entries(torrents: Seq<TorrentTaskInfo>, count: int) -> Seq<char>
    decreases count,
{
    if count <= 0 {
        Seq::empty()
    } else {
        torrent_entries(torrents, count - 1) + report_entry(
            torrents[count - 1].name@,
            torrents[count - 1].hash@,
        )
    }
}

/// The entries of the first `count` artifacts.
pub open spec fn artifact_entries(artifacts: Seq<ArtifactInfo>, count: int) -> Seq<char>
    decreases count,
{
    if count <= 0 {
        Seq::empty()
    } else {
        artifact_entries(artifacts, count - 1) + report_entry(
            artifacts[count - 1].name@,
            artifacts[count - 1].hash@,
        )
    }
}

/// The part of the report on the torrents that are ready.
pub open spec fn torrent_section(torrents: Seq<TorrentTaskInfo>) -> Seq<char> {
    if torrents.len() == 0 {
        Seq::empty()
    } else {
        "Ready Torrents:\n"@ + torrent_entries(torrents, torrents.len() as int)
    }
}

/// The part of the report on the artifacts that are available.
pub open spec fn artifact_section(artifacts: Seq<ArtifactInfo>) -> Seq<char> {
    if artifacts.len() == 0 {
        Seq::empty()
    } else {
        "Available Artifacts:\n"@ + artifact_entries(artifacts, artifacts.len() as int)
    }
}

/// The report: the torrents, then the artifacts, with an empty line between
/// the two parts where both are there; a line that says so where neither is.
pub open spec fn report_text(torrents: Seq<TorrentTaskInfo>, artifacts: Seq<ArtifactInfo>) -> Seq<
    char,
> {
    if torrents.len() == 0 && artifacts.len() == 0 {
        "No torrents or artifacts available"@
    } else if torrents.len() == 0 {
        artifact_section(artifacts)
    } else if artifacts.len() == 0 {
        torrent_section(torrents)
    } else {
        torrent_section(torrents) + "\n"@ + artifact_section(artifacts)
    }
}

/// Appends the entry of one item to `text`.
fn push_entry(text: &mut String, name: &str, hash: &str)
    ensures
        final(text)@ == old(text)@ + report_entry(name@, hash@),
{
    text.append("\n- ");
    text.append(name);
    text.append(" \n  (");
    text.append(hash);
    text.append(")\n");
    assert(text@ =~= old(text)@ + report_entry(name@, hash@));
}

/// Writes the report on what is ready at the seed host and at the relay.
pub fn report_available(torrents: &[TorrentTaskInfo], artifacts: &[ArtifactInfo]) -> (text: String)
    ensures
        text@ == report_text(torrents@, artifacts@),
{
    let mut text = String::new();
    if torrents.len() > 0 {
        text.append("Ready Torrents:\n");
        let mut i: usize = 0;
        while i < torrents.len()
            invariant
                i <= torrents.len(),
                text@ == "Ready Torrents:\n"@ + torrent_entries(torrents@, i as int),
            decreases torrents.len() - i,
        {
            push_entry(&mut text, torrents[i].name.as_str(), torrents[i].hash.as_str());
            i += 1;
            assert(text@ =~= "Ready Torrents:\n"@ + torrent_entries(torrents@, i as int));
        }
    }
    assert(text@ =~= torrent_section(torrents@));
    if artifacts.len() > 0 {
        if torrents.len() > 0 {
            text.append("\n");
        }
        let ghost head = text@;
        text.append("Available Artifacts:\n");
        let mut i: usize = 0;
        while i < artifacts.len()
            invariant
                i <= artifacts.len(),
                text@ == head + "Available Artifacts:\n"@ + artifact_entries(artifacts@, i as int),
            decreases artifacts.len() - i,
        {
            push_entry(&mut text, artifacts[i].name.as_str(), artifacts[i].hash.as_str());
            i += 1;
            assert(text@ =~= head + "Available Artifacts:\n"@ + artifact_entries(
                artifacts@,
                i as int,
            ));
        }
        assert(text@ =~= head + artifact_section(artifacts@));
    }
    if torrents.len() == 0 && artifacts.len() == 0 {
        text = String::from_str("No torrents or artifacts available");
    }
    assert(text@ =~= report_text(torrents@, artifacts@));
    text
}

/// What the operator is told about a command.
pub open spec fn command_description(command: BotCommand) -> Seq<char> {
    match command {
        BotCommand::PullJob => "Pull torrents information from seedbox."@,
        BotCommand::TransferJob => "Transfer torrents from seedbox to relay."@,
        BotCommand::ReportAvailable => "Report available torrents and artifacts."@,
    }
}

impl BotCommand {
    /// What the operator is told about the command.
    pub fn description(self) -> (text: &'static str)
        ensures
            text@ == command_description(self),
    {
        match self {
            BotCommand::PullJob => "Pull torrents information from seedbox.",
            BotCommand::TransferJob => "Transfer torrents from seedbox to relay.",
            BotCommand::ReportAvailable => "Report available torrents and artifacts.",
        }
    }

    /// The commands that are offered to the operator, in the order in which
    /// they are listed.
    pub fn menu() -> (commands: Vec<BotCommand>)
        ensures
            commands@ == seq![
                BotCommand::PullJob,
                BotCommand::TransferJob,
                BotCommand::ReportAvailable,
            ],
    {
        let mut commands: Vec<BotCommand> = Vec::new();
        commands.push(BotCommand::PullJob);
        commands.push(BotCommand::TransferJob);
        commands.push(BotCommand::ReportAvailable);
        assert(commands@ =~= seq![
            BotCommand::PullJob,
            BotCommand::TransferJob,
            BotCommand::ReportAvailable,
        ]);
        commands
    }
}

/// Every command is read back from its own name, alone or followed by a
/// space and anything else.
pub proof fn lemma_command_names_parse(command: BotCommand, rest: Seq<char>)
    ensures
        parsed_command("/"@ + command_name(command)) == Some(command),
        parsed_command("/"@ + command_name(command) + " "@ + rest) == Some(command),
{
    reveal_strlit("/");
    reveal_strlit(" ");
    reveal_strlit("pull");
    reveal_strlit("transfer");
    reveal_strlit("report");
    let word = command_name(command);
    let bare = "/"@ + word;
    let long = "/"@ + word + " "@ + rest;
    lemma_names_command(bare, "pull"@);
    lemma_names_command(bare, "transfer"@);
    lemma_names_command(bare, "report"@);
    lemma_names_command(long, "pull"@);
    lemma_names_command(long, "transfer"@);
    lemma_names_command(long, "report"@);
    assert(bare.subrange(1, 1 + word.len() as int) =~= word);
    assert(long.subrange(1, 1 + word.len() as int) =~= word);
    assert(names_command(bare, word));
    assert(names_command(long, word));
    assert("pull"@[0] != "transfer"@[0]);
    assert("pull"@[0] != "report"@[0]);
    assert("report"@[0] != "transfer"@[0]);
}

} // verus!
