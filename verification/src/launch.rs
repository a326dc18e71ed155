//! How the program starts, logs and ends.
use vstd::prelude::*;

use crate::text::{decimal, decimal_text, same_text};

verus! {

/// The context in which the bridge runs.
pub const RUN_EXE_CONTEXT: &'static str = "RUN";

/// The context in which the default configuration is written out.
pub const CONFIG_EXE_CONTEXT: &'static str = "CONFIG";

/// What the program was started for.
#[derive(Debug, Copy, Clone, PartialEq, Eq, Structural)]
pub enum ExeContext {
    Run,
    Config,
}

/// The context that a name stands for.
pub open spec fn context_named(name: Seq<char>) -> Option<ExeContext> {
    if name == RUN_EXE_CONTEXT@ {
        Some(ExeContext::Run)
    } else if name == CONFIG_EXE_CONTEXT@ {
        Some(ExeContext::Config)
    } else {
        None
    }
}

/// The context that the file name of the program stands for.
pub open spec fn context_of_exe(exe: Seq<char>) -> Option<ExeContext> {
    if exe == "beelay"@ {
        Some(ExeContext::Run)
    } else if exe == "beelay-config"@ {
        Some(ExeContext::Config)
    } else {
        None
    }
}

/// Reads the name of a context, or gives the message about a name that stands for none.
pub fn parse_context(exe_context: &str) -> (r: Result<ExeContext, String>)
    ensures
        match r {
            Ok(context) => context_named(exe_context@) == Some(context),
            Err(message) => {
                &&& context_named(exe_context@) is None
                &&& message@ == "Invalid execution context name: "@ + exe_context@
            },
        },
{
    if same_text(exe_context, RUN_EXE_CONTEXT) {
        Ok(ExeContext::Run)
    } else if same_text(exe_context, CONFIG_EXE_CONTEXT) {
        Ok(ExeContext::Config)
    } else {
        Err("Invalid execution context name: ".to_owned().concat(exe_context))
    }
}

/// Tells the context from the file name of the program, or gives the message about a name that
/// stands for none.
pub fn derive_context(exe: &str) -> (r: Result<ExeContext, String>)
    ensures
        match r {
            Ok(context) => context_of_exe(exe@) == Some(context),
            Err(message) => {
                &&& context_of_exe(exe@) is None
                &&& message@ == "Invalid exe name: "@ + exe@
            },
        },
{
    if same_text(exe, "beelay") {
        Ok(ExeContext::Run)
    } else if same_text(exe, "beelay-config") {
        Ok(ExeContext::Config)
    } else {
        Err("Invalid exe name: ".to_owned().concat(exe))
    }
}

/// Composes a line for the system log: the priority in angle brackets, which is the level plus
/// two, and the message.
pub fn syslog_line(level: u8, message: &str) -> (r: String)
    requires
        level <= 253,
    ensures
        r@ == "<"@ + decimal((level + 2) as nat) + ">"@ + message@,
{
    "<".to_owned().concat(decimal_text((level + 2) as u16).as_str()).concat(">").concat(message)
}

/// Whether the end of the program waits on: it does while all three tasks run.
pub fn waiting_for_tasks(mqtt_running: bool, core_running: bool, service_running: bool) -> (r: bool)
    ensures
        r == (mqtt_running && core_running && service_running),
{
    mqtt_running && core_running && service_running
}

/// Only the two names of contexts stand for one, and only the program's two file names tell one;
/// the bridge runs under the first of each.
pub proof fn contexts_have_exact_names(name: Seq<char>)
    ensures
        context_named(name) == Some(ExeContext::Run) <==> name == "RUN"@,
        context_named(name) == Some(ExeContext::Config) <==> name == "CONFIG"@,
        context_of_exe(name) == Some(ExeContext::Run) <==> name == "beelay"@,
        context_of_exe(name) == Some(ExeContext::Config) <==> name == "beelay-config"@,
{
    reveal_strlit("RUN");
    reveal_strlit("CONFIG");
    reveal_strlit("beelay");
    reveal_strlit("beelay-config");
    assert("RUN"@.len() != "CONFIG"@.len());
    assert("beelay"@.len() != "beelay-config"@.len());
}

} // verus!
