//! Command metadata for completion and hints: the names come from the
//! engine's list, the Chinese descriptions and argument hints are interface
//! text.

use vstd::prelude::*;

use crate::engine::commands::{command_names, COMMAND_NAMES};
use crate::text::str_eq;

verus! {

/// Display metadata of one command.
#[derive(Debug, Clone, Copy)]
pub struct CommandMeta {
    pub name: &'static str,
    pub desc: &'static str,
    pub args: &'static str,
}

/// One-line description of a command for completion.
pub open spec fn spec_desc(name: Seq<char>) -> Seq<char> {
    if name == "ask"@ {
        "询问在场角色"@
    } else if name == "judge"@ {
        "审判角色"@
    } else if name == "move"@ {
        "前往其他场景"@
    } else if name == "gaze"@ {
        "切换视角"@
    } else if name == "map"@ {
        "打开章节地图"@
    } else if name == "note"@ {
        "查看笔记"@
    } else if name == "help"@ {
        "查看指令帮助"@
    } else if name == "quit"@ {
        "存档并退出"@
    } else {
        ""@
    }
}

/// Argument hint of a command.
pub open spec fn spec_args(name: Seq<char>) -> Seq<char> {
    if name == "ask"@ {
        "[对象] [话题]"@
    } else if name == "judge"@ {
        "[对象]"@
    } else if name == "move"@ {
        "[目的地]"@
    } else if name == "help"@ {
        "[指令]"@
    } else {
        ""@
    }
}

pub fn desc_for(name: &str) -> (r: &'static str)
    ensures
        r@ == spec_desc(name@),
{
    if str_eq(name, "ask") {
        "询问在场角色"
    } else if str_eq(name, "judge") {
        "审判角色"
    } else if str_eq(name, "move") {
        "前往其他场景"
    } else if str_eq(name, "gaze") {
        "切换视角"
    } else if str_eq(name, "map") {
        "打开章节地图"
    } else if str_eq(name, "note") {
        "查看笔记"
    } else if str_eq(name, "help") {
        "查看指令帮助"
    } else if str_eq(name, "quit") {
        "存档并退出"
    } else {
        ""
    }
}

pub fn args_for(name: &str) -> (r: &'static str)
    ensures
        r@ == spec_args(name@),
{
    if str_eq(name, "ask") {
        "[对象] [话题]"
    } else if str_eq(name, "judge") {
        "[对象]"
    } else if str_eq(name, "move") {
        "[目的地]"
    } else if str_eq(name, "help") {
        "[指令]"
    } else {
        ""
    }
}

/// Every command with its metadata, in the engine's order.
pub fn all() -> (r: Vec<CommandMeta>)
    ensures
        r@.len() == 8,
        forall|i: int|
            0 <= i < 8 ==> (#[trigger] r@[i]).name@ == command_names()[i] && r@[i].desc@ == spec_desc(
                command_names()[i],
            ) && r@[i].args@ == spec_args(command_names()[i]),
{
    let mut out: Vec<CommandMeta> = Vec::new();
    let mut i: usize = 0;
    while i < 8
        invariant
            i <= 8,
            out@.len() == i,
            forall|k: int|
                0 <= k < i ==> (#[trigger] out@[k]).name@ == command_names()[k] && out@[k].desc@ == spec_desc(
                    command_names()[k],
                ) && out@[k].args@ == spec_args(command_names()[k]),
        decreases 8 - i,
    {
        let name = COMMAND_NAMES[i];
        proof {
            reveal_strlit("ask");
            reveal_strlit("judge");
            reveal_strlit("move");
            reveal_strlit("gaze");
            reveal_strlit("map");
            reveal_strlit("note");
            reveal_strlit("help");
            reveal_strlit("quit");
        }
        assert(name@ == command_names()[i as int]);
        out.push(CommandMeta { name, desc: desc_for(name), args: args_for(name) });
        i += 1;
    }
    out
}

/// Whether the engine knows the command name.
pub fn is_known(verb: &str) -> (r: bool)
    ensures
        r == command_names().contains(verb@),
{
    let mut i: usize = 0;
    while i < 8
        invariant
            i <= 8,
            forall|k: int| 0 <= k < i ==> command_names()[k] != verb@,
        decreases 8 - i,
    {
        proof {
            reveal_strlit("ask");
            reveal_strlit("judge");
            reveal_strlit("move");
            reveal_strlit("gaze");
            reveal_strlit("map");
            reveal_strlit("note");
            reveal_strlit("help");
            reveal_strlit("quit");
        }
        assert(COMMAND_NAMES[i as int]@ == command_names()[i as int]);
        if str_eq(COMMAND_NAMES[i], verb) {
            assert(command_names()[i as int] == verb@);
            return true;
        }
        i += 1;
    }
    false
}

} // verus!
