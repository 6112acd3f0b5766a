//! Decisions over PowerShell event data: which command text, if any, of a
//! pipeline-execution or remote-command event must be screened against the
//! whitelist. Reading the whitelist file and the screening itself are the
//! caller's work; this module only extracts and decides.

use vstd::prelude::*;
use crate::record::{field_value, get_field_value};
use crate::strutil::{
    contains_seq, str_contains, str_eq, find_last, last_match, lemma_last_match_is_match,
    prefix_until_char, take_until_char,
};

verus! {

/// One command to be screened against the whitelist by the caller: the
/// event identifier it came from and the command text.
pub struct CommandCheck {
    pub event_id: u64,
    pub command: String,
}

pub struct PowerShell {}

/// Position just after the last host-application marker of a
/// pipeline-execution event's context, in either spelling; 0 when neither
/// marker occurs.
pub open spec fn marker_end(ctx: Seq<char>) -> int {
    let e1 = match last_match(ctx, "Host Application = "@) {
        Some(i) => i + "Host Application = "@.len(),
        None => 0,
    };
    let e2 = match last_match(ctx, "\u{30db}\u{30b9}\u{30c8} \u{30a2}\u{30d7}\u{30ea}\u{30b1}\u{30fc}\u{30b7}\u{30e7}\u{30f3} = "@) {
        Some(i) => i
            + "\u{30db}\u{30b9}\u{30c8} \u{30a2}\u{30d7}\u{30ea}\u{30b1}\u{30fc}\u{30b7}\u{30e7}\u{30f3} = "@.len(),
        None => 0,
    };
    if e1 >= e2 {
        e1
    } else {
        e2
    }
}

/// The command line of a pipeline-execution event: the text after the last
/// host-application marker, truncated at the first line break.
pub open spec fn pipeline_command(ctx: Seq<char>) -> Seq<char> {
    prefix_until_char(ctx.subrange(marker_end(ctx), ctx.len() as int), '\n')
}

/// The pipeline decision: the extracted command, when the context mentions
/// the host application at all and the extracted command is non-empty.
pub open spec fn pipeline_check(event_data: Seq<(String, String)>) -> Option<Seq<char>> {
    let ctx = match field_value(event_data, "ContextInfo"@) {
        Some(v) => v,
        None => Seq::<char>::empty(),
    };
    if contains_seq(ctx, "Host Application"@) || contains_seq(
        ctx,
        "\u{30db}\u{30b9}\u{30c8} \u{30a2}\u{30d7}\u{30ea}\u{30b1}\u{30fc}\u{30b7}\u{30e7}\u{30f3}"@,
    ) {
        let cmd = pipeline_command(ctx);
        if cmd.len() > 0 {
            Some(cmd)
        } else {
            None
        }
    } else {
        None
    }
}

/// The remote-command decision: the script block text (possibly empty),
/// whenever the event carries a message number.
pub open spec fn remote_check(event_data: Seq<(String, String)>) -> Option<Seq<char>> {
    if field_value(event_data, "MessageNumber"@) is Some {
        Some(
            match field_value(event_data, "ScriptBlockText"@) {
                Some(v) => v,
                None => Seq::<char>::empty(),
            },
        )
    } else {
        None
    }
}

/// The whole decision for one event: pipeline extraction for event 4103,
/// remote-command extraction for event 4104, nothing otherwise.
pub open spec fn detection_decision(event_id: Seq<char>, event_data: Seq<(String, String)>)
    -> Option<(u64, Seq<char>)> {
    if event_id == "4103"@ {
        match pipeline_check(event_data) {
            Some(c) => Some((4103u64, c)),
            None => None,
        }
    } else if event_id == "4104"@ {
        match remote_check(event_data) {
            Some(c) => Some((4104u64, c)),
            None => None,
        }
    } else {
        None
    }
}

impl PowerShell {
    pub fn new() -> (r: PowerShell)
        ensures
            true,
    {
        PowerShell {  }
    }

    /// Decide which command of the event, if any, must be screened against
    /// the whitelist. The caller performs the screening.
    pub fn detection(&mut self, event_id: String, event_data: &Vec<(String, String)>) -> (r:
        Option<CommandCheck>)
        ensures
            match r {
                Some(c) => detection_decision(event_id@, event_data@) == Some(
                    (c.event_id, c.command@),
                ),
                None => detection_decision(event_id@, event_data@) is None,
            },
    {
        if str_eq(event_id.as_str(), "4103") {
            match PowerShell::execute_pipeline(event_data) {
                Some(cmd) => Some(CommandCheck { event_id: 4103, command: cmd }),
                None => None,
            }
        } else if str_eq(event_id.as_str(), "4104") {
            match PowerShell::execute_remote_command(event_data) {
                Some(cmd) => Some(CommandCheck { event_id: 4104, command: cmd }),
                None => None,
            }
        } else {
            None
        }
    }

    /// The pipeline-execution decision over one event's data.
    pub fn execute_pipeline(event_data: &Vec<(String, String)>) -> (r: Option<String>)
        ensures
            match r {
                Some(cmd) => pipeline_check(event_data@) == Some(cmd@),
                None => pipeline_check(event_data@) is None,
            },
    {
        let commandline = match get_field_value(event_data, "ContextInfo") {
            Some(v) => v,
            None => String::new(),
        };
        if str_contains(commandline.as_str(), "Host Application") || str_contains(
            commandline.as_str(),
            "\u{30db}\u{30b9}\u{30c8} \u{30a2}\u{30d7}\u{30ea}\u{30b1}\u{30fc}\u{30b7}\u{30e7}\u{30f3}",
        ) {
            let cmd = PowerShell::extract_pipeline_command(commandline.as_str());
            if cmd.unicode_len() > 0 {
                Some(cmd)
            } else {
                None
            }
        } else {
            None
        }
    }

    /// Cut the text after the last host-application marker and truncate it
    /// at the first line break.
    fn extract_pipeline_command(ctx: &str) -> (r: String)
        ensures
            r@ == pipeline_command(ctx@),
    {
        let m_en = "Host Application = ";
        let m_ja = "\u{30db}\u{30b9}\u{30c8} \u{30a2}\u{30d7}\u{30ea}\u{30b1}\u{30fc}\u{30b7}\u{30e7}\u{30f3} = ";
        proof {
            lemma_last_match_is_match(ctx@, m_en@, ctx@.len() - m_en@.len());
            lemma_last_match_is_match(ctx@, m_ja@, ctx@.len() - m_ja@.len());
        }
        let ctx_len = ctx.unicode_len();
        let e1: usize = match find_last(ctx, m_en) {
            Some(i) => i + m_en.unicode_len(),
            None => 0,
        };
        let e2: usize = match find_last(ctx, m_ja) {
            Some(i) => i + m_ja.unicode_len(),
            None => 0,
        };
        let cut = if e1 >= e2 {
            e1
        } else {
            e2
        };
        let rest = ctx.substring_char(cut, ctx_len);
        take_until_char(rest, '\n')
    }

    /// The remote-command decision over one event's data.
    pub fn execute_remote_command(event_data: &Vec<(String, String)>) -> (r: Option<String>)
        ensures
            match r {
                Some(cmd) => remote_check(event_data@) == Some(cmd@),
                None => remote_check(event_data@) is None,
            },
    {
        let message_num = get_field_value(event_data, "MessageNumber");
        let commandline = match get_field_value(event_data, "ScriptBlockText") {
            Some(v) => v,
            None => String::new(),
        };
        match message_num {
            Some(_) => Some(commandline),
            None => None,
        }
    }
}

} // verus!
