//! The chat commands that tune the detector while it runs.
//!
//! A command is recognised when the whole text of a message equals one of the
//! phrases configured for it. The two tunable values move one step at a time
//! and stop at their bounds: a step that would leave the bounds changes
//! nothing and is answered with a message that says so.

use vstd::prelude::*;
use vstd::string::StringExecFns;
use crate::limits::{
    MAX_MOSAIC_SIZE, MAX_SIMILARITY_THRESHOLD, MIN_MOSAIC_SIZE, MIN_SIMILARITY_THRESHOLD,
};
use crate::text::{contains_phrase, decimal, decimal_string, join, joined};

verus! {

/// The phrases that trigger each command.
#[allow(non_snake_case)]
#[derive(Debug)]
pub struct CommandsJson {
    pub increaseSimilarityThreshold: Vec<String>,
    pub decreaseSimilarityThreshold: Vec<String>,
    pub increaseMosaicSize: Vec<String>,
    pub decreaseMosaicSize: Vec<String>,
    pub help: Vec<String>,
}

/// What a recognised phrase asks for.
#[derive(Clone, Copy, Debug, PartialEq, Eq, Structural)]
pub enum Command {
    Help,
    IncreaseSimilarityThreshold,
    DecreaseSimilarityThreshold,
    IncreaseMosaicSize,
    DecreaseMosaicSize,
}

/// `value` one step up, unless the step would pass `maximum`.
pub open spec fn raised(value: u32, maximum: u32) -> u32 {
    if value + 1 > maximum {
        value
    } else {
        (value + 1) as u32
    }
}

/// `value` one step down, unless the step would pass `minimum`.
pub open spec fn lowered(value: u32, minimum: u32) -> u32 {
    if value - 1 < minimum {
        value
    } else {
        (value - 1) as u32
    }
}

/// The similarity threshold after `command`, in hundredths.
pub open spec fn threshold_after(command: Command, threshold: u32) -> u32 {
    match command {
        Command::IncreaseSimilarityThreshold => raised(threshold, MAX_SIMILARITY_THRESHOLD),
        Command::DecreaseSimilarityThreshold => lowered(threshold, MIN_SIMILARITY_THRESHOLD),
        _ => threshold,
    }
}

/// The mosaic size after `command`.
pub open spec fn mosaic_size_after(command: Command, mosaic_size: u32) -> u32 {
    match command {
        Command::IncreaseMosaicSize => raised(mosaic_size, MAX_MOSAIC_SIZE),
        Command::DecreaseMosaicSize => lowered(mosaic_size, MIN_MOSAIC_SIZE),
        _ => mosaic_size,
    }
}

/// A similarity threshold that commands can reach.
pub open spec fn threshold_in_bounds(threshold: u32) -> bool {
    MIN_SIMILARITY_THRESHOLD <= threshold <= MAX_SIMILARITY_THRESHOLD
}

/// A mosaic size that commands can reach.
pub open spec fn mosaic_size_in_bounds(mosaic_size: u32) -> bool {
    MIN_MOSAIC_SIZE <= mosaic_size <= MAX_MOSAIC_SIZE
}

/// The answer to a step of a tunable value: `limit_text` and the bound where
/// the step was refused, `step_text` and the new value where it was taken.
pub open spec fn step_reply(
    limit_text: Seq<char>,
    step_text: Seq<char>,
    ending: Seq<char>,
    before: u32,
    after: u32,
    bound: u32,
) -> Seq<char> {
    if after == before {
        limit_text + decimal(bound as nat) + ending
    } else {
        step_text + decimal(after as nat) + ending
    }
}

/// The list of prompts sent in answer to a help phrase.
pub open spec fn help_text(table: &CommandsJson) -> Seq<char> {
    "I can respond to the following prompts: "@ + joined(
        table.increaseSimilarityThreshold.deep_view(),
        " or "@,
    ) + " / "@ + joined(table.decreaseSimilarityThreshold.deep_view(), " or "@) + " / "@ + joined(
        table.increaseMosaicSize.deep_view(),
        " or "@,
    ) + " / "@ + joined(table.decreaseMosaicSize.deep_view(), " or "@)
}

/// The answer to `command`, given the values before it was applied.
pub open spec fn reply_text(
    table: &CommandsJson,
    command: Command,
    threshold: u32,
    mosaic_size: u32,
) -> Seq<char> {
    match command {
        Command::Help => help_text(table),
        Command::IncreaseSimilarityThreshold => step_reply(
            "Similarity threshold already at maximum: "@,
            "Similarity threshold increased to "@,
            "%."@,
            threshold,
            threshold_after(command, threshold),
            MAX_SIMILARITY_THRESHOLD,
        ),
        Command::DecreaseSimilarityThreshold => step_reply(
            "Similarity threshold already at minimum: "@,
            "Similarity threshold decreased to "@,
            "%."@,
            threshold,
            threshold_after(command, threshold),
            MIN_SIMILARITY_THRESHOLD,
        ),
        Command::IncreaseMosaicSize => step_reply(
            "Cognitive differentiation already at maximum: "@,
            "Cognitive differentiation increased to "@,
            "."@,
            mosaic_size,
            mosaic_size_after(command, mosaic_size),
            MAX_MOSAIC_SIZE,
        ),
        Command::DecreaseMosaicSize => step_reply(
            "Cognitive differentiation already at minimum: "@,
            "Cognitive differentiation decreased to "@,
            "."@,
            mosaic_size,
            mosaic_size_after(command, mosaic_size),
            MIN_MOSAIC_SIZE,
        ),
    }
}

impl CommandsJson {
    /// The command that `text` triggers. Where a phrase is configured for
    /// several commands, help wins, then the threshold commands, then the
    /// mosaic commands, raising before lowering.
    pub open spec fn command_for(&self, text: Seq<char>) -> Option<Command> {
        if self.help.deep_view().contains(text) {
            Some(Command::Help)
        } else if self.increaseSimilarityThreshold.deep_view().contains(text) {
            Some(Command::IncreaseSimilarityThreshold)
        } else if self.decreaseSimilarityThreshold.deep_view().contains(text) {
            Some(Command::DecreaseSimilarityThreshold)
        } else if self.increaseMosaicSize.deep_view().contains(text) {
            Some(Command::IncreaseMosaicSize)
        } else if self.decreaseMosaicSize.deep_view().contains(text) {
            Some(Command::DecreaseMosaicSize)
        } else {
            None
        }
    }

    /// The table without any phrase: no text is a command.
    pub fn empty() -> (table: CommandsJson)
        ensures
            table.increaseSimilarityThreshold@.len() == 0,
            table.decreaseSimilarityThreshold@.len() == 0,
            table.increaseMosaicSize@.len() == 0,
            table.decreaseMosaicSize@.len() == 0,
            table.help@.len() == 0,
            forall|text: Seq<char>| table.command_for(text) is None,
    {
        CommandsJson {
            increaseSimilarityThreshold: Vec::new(),
            decreaseSimilarityThreshold: Vec::new(),
            increaseMosaicSize: Vec::new(),
            decreaseMosaicSize: Vec::new(),
            help: Vec::new(),
        }
    }

    /// Looks up the command that `text` triggers.
    pub fn find_command(&self, text: &str) -> (command: Option<Command>)
        ensures
            command == self.command_for(text@),
    {
        let text = String::from_str(text);
        if contains_phrase(&self.help, &text) {
            Some(Command::Help)
        } else if contains_phrase(&self.increaseSimilarityThreshold, &text) {
            Some(Command::IncreaseSimilarityThreshold)
        } else if contains_phrase(&self.decreaseSimilarityThreshold, &text) {
            Some(Command::DecreaseSimilarityThreshold)
        } else if contains_phrase(&self.increaseMosaicSize, &text) {
            Some(Command::IncreaseMosaicSize)
        } else if contains_phrase(&self.decreaseMosaicSize, &text) {
            Some(Command::DecreaseMosaicSize)
        } else {
            None
        }
    }

    /// Writes the answer to a help phrase.
    pub fn help_message(&self) -> (reply: String)
        ensures
            reply@ == help_text(self),
    {
        let mut reply = String::from_str("I can respond to the following prompts: ");
        reply.append(join(&self.increaseSimilarityThreshold, " or ").as_str());
        reply.append(" / ");
        reply.append(join(&self.decreaseSimilarityThreshold, " or ").as_str());
        reply.append(" / ");
        reply.append(join(&self.increaseMosaicSize, " or ").as_str());
        reply.append(" / ");
        reply.append(join(&self.decreaseMosaicSize, " or ").as_str());
        reply
    }
}

/// One step up for `value`, which stops at `maximum`.
fn raise(value: &mut u32, maximum: u32) -> (moved: bool)
    ensures
        *final(value) == raised(*old(value), maximum),
        moved == (*final(value) != *old(value)),
{
    if *value >= maximum {
        false
    } else {
        *value = *value + 1;
        true
    }
}

/// One step down for `value`, which stops at `minimum`.
fn lower(value: &mut u32, minimum: u32) -> (moved: bool)
    ensures
        *final(value) == lowered(*old(value), minimum),
        moved == (*final(value) != *old(value)),
{
    if *value <= minimum {
        false
    } else {
        *value = *value - 1;
        true
    }
}

/// Writes the answer to a step of a tunable value.
fn step_message(
    limit_text: &str,
    step_text: &str,
    ending: &str,
    moved: bool,
    value: u32,
    bound: u32,
) -> (reply: String)
    ensures
        reply@ == if moved {
            step_text@ + decimal(value as nat) + ending@
        } else {
            limit_text@ + decimal(bound as nat) + ending@
        },
{
    let mut reply = if moved {
        String::from_str(step_text)
    } else {
        String::from_str(limit_text)
    };
    reply.append(decimal_string(if moved { value } else { bound }).as_str());
    reply.append(ending);
    reply
}

/// Interprets `message_text` as a command.
///
/// Text that triggers a command applies it to the similarity threshold (in
/// hundredths) or to the mosaic size, and is answered with a confirmation.
/// Any other text changes nothing and gets no answer.
pub fn command_handler(
    message_text: &str,
    command_strings: &CommandsJson,
    similarity_threshold: &mut u32,
    mosaic_size: &mut u32,
) -> (response: Option<String>)
    ensures
        match command_strings.command_for(message_text@) {
            Some(command) => {
                &&& response matches Some(reply)
                &&& reply@ == reply_text(
                    command_strings,
                    command,
                    *old(similarity_threshold),
                    *old(mosaic_size),
                )
                &&& *final(similarity_threshold) == threshold_after(
                    command,
                    *old(similarity_threshold),
                )
                &&& *final(mosaic_size) == mosaic_size_after(command, *old(mosaic_size))
            },
            None => {
                &&& response is None
                &&& *final(similarity_threshold) == *old(similarity_threshold)
                &&& *final(mosaic_size) == *old(mosaic_size)
            },
        },
        threshold_in_bounds(*old(similarity_threshold)) ==> threshold_in_bounds(
            *final(similarity_threshold),
        ),
        mosaic_size_in_bounds(*old(mosaic_size)) ==> mosaic_size_in_bounds(*final(mosaic_size)),
{
    match command_strings.find_command(message_text) {
        None => None,
        Some(Command::Help) => Some(command_strings.help_message()),
        Some(Command::IncreaseSimilarityThreshold) => {
            let moved = raise(similarity_threshold, MAX_SIMILARITY_THRESHOLD);
            Some(
                step_message(
                    "Similarity threshold already at maximum: ",
                    "Similarity threshold increased to ",
                    "%.",
                    moved,
                    *similarity_threshold,
                    MAX_SIMILARITY_THRESHOLD,
                ),
            )
        },
        Some(Command::DecreaseSimilarityThreshold) => {
            let moved = lower(similarity_threshold, MIN_SIMILARITY_THRESHOLD);
            Some(
                step_message(
                    "Similarity threshold already at minimum: ",
                    "Similarity threshold decreased to ",
                    "%.",
                    moved,
                    *similarity_threshold,
                    MIN_SIMILARITY_THRESHOLD,
                ),
            )
        },
        Some(Command::IncreaseMosaicSize) => {
            let moved = raise(mosaic_size, MAX_MOSAIC_SIZE);
            Some(
                step_message(
                    "Cognitive differentiation already at maximum: ",
                    "Cognitive differentiation increased to ",
                    ".",
                    moved,
                    *mosaic_size,
                    MAX_MOSAIC_SIZE,
                ),
            )
        },
        Some(Command::DecreaseMosaicSize) => {
            let moved = lower(mosaic_size, MIN_MOSAIC_SIZE);
            Some(
                step_message(
                    "Cognitive differentiation already at minimum: ",
                    "Cognitive differentiation decreased to ",
                    ".",
                    moved,
                    *mosaic_size,
                    MIN_MOSAIC_SIZE,
                ),
            )
        },
    }
}

/// The similarity threshold after each of `commands` in turn.
pub open spec fn threshold_after_all(commands: Seq<Command>, threshold: u32) -> u32
    decreases commands.len(),
{
    if commands.len() == 0 {
        threshold
    } else {
        threshold_after(commands.last(), threshold_after_all(commands.drop_last(), threshold))
    }
}

/// The mosaic size after each of `commands` in turn.
pub open spec fn mosaic_size_after_all(commands: Seq<Command>, mosaic_size: u32) -> u32
    decreases commands.len(),
{
    if commands.len() == 0 {
        mosaic_size
    } else {
        mosaic_size_after(commands.last(), mosaic_size_after_all(commands.drop_last(), mosaic_size))
    }
}

/// `command`, `count` times over.
pub open spec fn repeated(command: Command, count: nat) -> Seq<Command> {
    Seq::new(count, |i: int| command)
}

/// No sequence of commands takes the similarity threshold out of its bounds.
pub proof fn lemma_threshold_stays_in_bounds(commands: Seq<Command>, threshold: u32)
    requires
        threshold_in_bounds(threshold),
    ensures
        threshold_in_bounds(threshold_after_all(commands, threshold)),
    decreases commands.len(),
{
    if commands.len() > 0 {
        lemma_threshold_stays_in_bounds(commands.drop_last(), threshold);
    }
}

/// No sequence of commands takes the mosaic size out of its bounds.
pub proof fn lemma_mosaic_size_stays_in_bounds(commands: Seq<Command>, mosaic_size: u32)
    requires
        mosaic_size_in_bounds(mosaic_size),
    ensures
        mosaic_size_in_bounds(mosaic_size_after_all(commands, mosaic_size)),
    decreases commands.len(),
{
    if commands.len() > 0 {
        lemma_mosaic_size_stays_in_bounds(commands.drop_last(), mosaic_size);
    }
}

/// Raising the similarity threshold `count` times adds `count` hundredths
/// until the maximum is reached, and nothing from there on.
pub proof fn lemma_repeated_threshold_increase(threshold: u32, count: nat)
    requires
        threshold <= MAX_SIMILARITY_THRESHOLD,
    ensures
        threshold_after_all(repeated(Command::IncreaseSimilarityThreshold, count), threshold)
            == if threshold + count <= MAX_SIMILARITY_THRESHOLD {
            threshold + count
        } else {
            MAX_SIMILARITY_THRESHOLD as int
        },
    decreases count,
{
    let command = Command::IncreaseSimilarityThreshold;
    if count > 0 {
        assert(repeated(command, count).drop_last() =~= repeated(command, (count - 1) as nat));
        lemma_repeated_threshold_increase(threshold, (count - 1) as nat);
    }
}

/// Lowering the similarity threshold `count` times takes `count` hundredths
/// off until the minimum is reached, and nothing from there on.
pub proof fn lemma_repeated_threshold_decrease(threshold: u32, count: nat)
    requires
        MIN_SIMILARITY_THRESHOLD <= threshold,
    ensures
        threshold_after_all(repeated(Command::DecreaseSimilarityThreshold, count), threshold)
            == if threshold - count >= MIN_SIMILARITY_THRESHOLD {
            threshold - count
        } else {
            MIN_SIMILARITY_THRESHOLD as int
        },
    decreases count,
{
    let command = Command::DecreaseSimilarityThreshold;
    if count > 0 {
        assert(repeated(command, count).drop_last() =~= repeated(command, (count - 1) as nat));
        lemma_repeated_threshold_decrease(threshold, (count - 1) as nat);
    }
}

/// Raising the mosaic size `count` times adds `count` until the maximum is
/// reached, and nothing from there on.
pub proof fn lemma_repeated_mosaic_size_increase(mosaic_size: u32, count: nat)
    requires
        mosaic_size <= MAX_MOSAIC_SIZE,
    ensures
        mosaic_size_after_all(repeated(Command::IncreaseMosaicSize, count), mosaic_size)
            == if mosaic_size + count <= MAX_MOSAIC_SIZE {
            mosaic_size + count
        } else {
            MAX_MOSAIC_SIZE as int
        },
    decreases count,
{
    let command = Command::IncreaseMosaicSize;
    if count > 0 {
        assert(repeated(command, count).drop_last() =~= repeated(command, (count - 1) as nat));
        lemma_repeated_mosaic_size_increase(mosaic_size, (count - 1) as nat);
    }
}

/// Lowering the mosaic size `count` times takes `count` off until the minimum
/// is reached, and nothing from there on.
pub proof fn lemma_repeated_mosaic_size_decrease(mosaic_size: u32, count: nat)
    requires
        MIN_MOSAIC_SIZE <= mosaic_size,
    ensures
        mosaic_size_after_all(repeated(Command::DecreaseMosaicSize, count), mosaic_size)
            == if mosaic_size - count >= MIN_MOSAIC_SIZE {
            mosaic_size - count
        } else {
            MIN_MOSAIC_SIZE as int
        },
    decreases count,
{
    let command = Command::DecreaseMosaicSize;
    if count > 0 {
        assert(repeated(command, count).drop_last() =~= repeated(command, (count - 1) as nat));
        lemma_repeated_mosaic_size_decrease(mosaic_size, (count - 1) as nat);
    }
}

} // verus!
