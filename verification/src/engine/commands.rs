//! Command parsing and help text.
//!
//! A raw input line becomes a [`Command`]: command names and ids are
//! case-insensitive (lower-cased), extra whitespace is tolerated, an empty
//! line is ignored, and unknown commands or arguments given to commands that
//! take none come back as readable outcomes. Executing a command is the
//! session's business.

use vstd::prelude::*;

use crate::text::{lower_seq, owned, split_ws, str_eq, strs, to_ascii_lower, tokens, trim, trim_seq};

verus! {

/// A parsed command.
#[derive(Debug, Clone, PartialEq, Eq)]
pub enum Command {
    /// `ask [target] [topic?]`
    Ask { target: Option<String>, topic: Option<String> },
    /// `judge [target]`
    Judge { target: Option<String> },
    /// `move [destination]`
    Move { dest: Option<String> },
    /// `gaze`
    Gaze,
    /// `map`
    ShowMap,
    /// `note`
    Note,
    /// `help [command?]`
    Help { cmd: Option<String> },
    /// `quit`
    Quit,
}

/// Result of parsing a line.
#[derive(Debug, Clone, PartialEq, Eq)]
pub enum ParseOutcome {
    /// Blank input: ignored.
    Empty,
    /// A command.
    Parsed(Command),
    /// Not a command; carries the trimmed input.
    Unknown(String),
    /// A command that takes no argument was given some; carries its name.
    TooManyArguments(String),
}

/// Known command names, in help order.
pub const COMMAND_NAMES: [&'static str; 8] = ["ask", "judge", "move", "gaze", "map", "note", "help", "quit"];

/// The command names as a sequence.
pub open spec fn command_names() -> Seq<Seq<char>> {
    seq!["ask"@, "judge"@, "move"@, "gaze"@, "map"@, "note"@, "help"@, "quit"@]
}

/// One-line purpose of a command.
pub open spec fn spec_summary(name: Seq<char>) -> Option<Seq<char>> {
    if name == "ask"@ {
        Some("从在场角色收集信息；不指定话题时弹出话题菜单"@)
    } else if name == "judge"@ {
        Some("审判某角色（章级操作），触发审判剧情；无参数则列出本章未审判角色"@)
    } else if name == "move"@ {
        Some("在场景之间移动；无参数时列出可达场景"@)
    } else if name == "gaze"@ {
        Some("切换左/右眼（影子/表面视角）"@)
    } else if name == "map"@ {
        Some("打开章节树/检查点地图，可选择已经历过的 checkpoint 回滚"@)
    } else if name == "note"@ {
        Some("查看玩家已见过的文本记录（对话/叙事/审判剧情）"@)
    } else if name == "help"@ {
        Some("列出指令或查看某指令用法"@)
    } else if name == "quit"@ {
        Some("自动保存后退出"@)
    } else {
        None
    }
}

/// One-line purpose of a command.
pub fn command_summary(name: &str) -> (r: Option<&'static str>)
    ensures
        match r {
            Some(s) => spec_summary(name@) == Some(s@),
            None => spec_summary(name@) is None,
        },
{
    if str_eq(name, "ask") {
        Some("从在场角色收集信息；不指定话题时弹出话题菜单")
    } else if str_eq(name, "judge") {
        Some("审判某角色（章级操作），触发审判剧情；无参数则列出本章未审判角色")
    } else if str_eq(name, "move") {
        Some("在场景之间移动；无参数时列出可达场景")
    } else if str_eq(name, "gaze") {
        Some("切换左/右眼（影子/表面视角）")
    } else if str_eq(name, "map") {
        Some("打开章节树/检查点地图，可选择已经历过的 checkpoint 回滚")
    } else if str_eq(name, "note") {
        Some("查看玩家已见过的文本记录（对话/叙事/审判剧情）")
    } else if str_eq(name, "help") {
        Some("列出指令或查看某指令用法")
    } else if str_eq(name, "quit") {
        Some("自动保存后退出")
    } else {
        None
    }
}

/// `name` padded with spaces to five characters (the longest name).
pub open spec fn pad5(name: Seq<char>) -> Seq<char> {
    if name.len() < 5 {
        name + Seq::new((5 - name.len()) as nat, |i: int| ' ')
    } else {
        name
    }
}

/// The overview line of a command.
pub open spec fn overview_line(name: Seq<char>, summary: Seq<char>) -> Seq<char> {
    "  "@ + pad5(name) + " — "@ + summary
}

/// The lines of `help` without argument.
pub open spec fn spec_overview() -> Seq<Seq<char>> {
    seq!["可用指令："@].add(
        Seq::new(8, |i: int| overview_line(command_names()[i], spec_summary(command_names()[i])->0)),
    ).push("输入 help [指令] 查看该指令详细用法。"@)
}

fn pad_name(name: &str) -> (r: String)
    requires
        name@.len() <= 5,
    ensures
        r@ == pad5(name@),
{
    let mut r = owned(name);
    let n = name.unicode_len();
    let mut k: usize = n;
    while k < 5
        invariant
            n == name@.len(),
            n <= k <= 5,
            r@ == name@ + Seq::new((k - n) as nat, |i: int| ' '),
        decreases 5 - k,
    {
        r.append(" ");
        proof {
            reveal_strlit(" ");
        }
        assert(r@ =~= name@ + Seq::new((k + 1 - n) as nat, |i: int| ' '));
        k += 1;
    }
    assert(n == 5 ==> r@ =~= name@);
    r
}

/// `help` without argument: every command with its purpose.
pub fn help_overview() -> (r: Vec<String>)
    ensures
        strs(r@) == spec_overview(),
{
    let mut out: Vec<String> = Vec::new();
    out.push(owned("可用指令："));
    let mut i: usize = 0;
    while i < 8
        invariant
            i <= 8,
            strs(out@) == seq!["可用指令："@].add(
                Seq::new(i as nat, |j: int| overview_line(command_names()[j], spec_summary(command_names()[j])->0)),
            ),
        decreases 8 - i,
    {
        let name = COMMAND_NAMES[i];
        proof {
            reveal_strlit("ask");
            reveal_strlit("judge");
            reveal_strlit("move");
            reveal_strlit("gaze");
            reveal_strlit("map");
            reveal_strlit("note");
            reveal_strlit("help");
            reveal_strlit("quit");
        }
        assert(name@ == command_names()[i as int]);
        match command_summary(name) {
            Some(summary) => {
                let padded = pad_name(name);
                let mut line = owned("  ");
                line.append(padded.as_str());
                line.append(" — ");
                line.append(summary);
                let ghost before = strs(out@);
                out.push(line);
                assert(strs(out@) =~= before.push(line@));
                assert(strs(out@) =~= seq!["可用指令："@].add(
                    Seq::new((i + 1) as nat, |j: int| overview_line(command_names()[j], spec_summary(command_names()[j])->0)),
                ));
            },
            None => {
                assert(false);
            },
        }
        i += 1;
    }
    let ghost before = strs(out@);
    out.push(owned("输入 help [指令] 查看该指令详细用法。"));
    assert(strs(out@) =~= before.push("输入 help [指令] 查看该指令详细用法。"@));
    assert(Seq::new(8, |j: int| overview_line(command_names()[j], spec_summary(command_names()[j])->0)) =~= Seq::new(8 as nat, |j: int| overview_line(command_names()[j], spec_summary(command_names()[j])->0)));
    out
}

/// Detailed usage of a command.
pub open spec fn spec_help(name: Seq<char>) -> Option<Seq<Seq<char>>> {
    if name == "ask"@ {
        Some(seq!["ask — 从在场角色收集信息"@, "语法：ask [目标] [话题?]"@, "  不带参数：先选当前场景在场角色，再选话题。"@, "  ask [目标]：列出该角色当前视角下可问的话题。"@, "  ask [目标] [话题]：直接以话题 id 询问。"@, "示例：ask wolf、ask wolf whereabouts"@])
    } else if name == "judge"@ {
        Some(seq!["judge — 审判某角色（章级操作，不要求在场）"@, "语法：judge [目标]"@, "  不带参数：列出本章尚未审判的角色。"@, "  judge [目标]：触发该角色的审判剧情并记录。"@, "  完成本章必要审判后自动推进剧情。"@, "示例：judge wolf"@])
    } else if name == "move"@ {
        Some(seq!["move — 在场景之间移动"@, "语法：move [目的地]"@, "  不带参数：列出当前场景可达的目的地。"@, "  move [目的地]：移动到指定场景（保持当前视角）。"@, "示例：move market"@])
    } else if name == "gaze"@ {
        Some(seq!["gaze — 切换视角"@, "语法：gaze"@, "  在左眼（影子世界）与右眼（表面世界）之间切换。"@, "  表面恒为真命题，影子恒为假命题，取反即得真相。"@])
    } else if name == "map"@ {
        Some(seq!["map — 章节树 / 检查点地图"@, "语法：map"@, "  浏览已经历过的 checkpoint（chapter_start / before_judgment）。"@, "  选择节点可回滚到该处（破坏性，需确认）。discovered 探索记忆保留。"@])
    } else if name == "note"@ {
        Some(seq!["note — 查看笔记"@, "语法：note"@, "  展示玩家实际见过的对话、叙事与审判剧情文本。"@, "  记录基于首次查看时的快照，不随后续剧情漂移。"@])
    } else if name == "help"@ {
        Some(seq!["help — 查看指令用法"@, "语法：help [指令?]"@, "  不带参数：列出全部指令。"@, "  help [指令]：查看该指令详细用法。"@])
    } else if name == "quit"@ {
        Some(seq!["quit — 退出游戏"@, "语法：quit"@, "  自动保存后退出。"@])
    } else {
        None
    }
}

fn lines(v: &[&str]) -> (r: Vec<String>)
    ensures
        strs(r@) == v@.map_values(|s: &str| s@),
{
    let mut out: Vec<String> = Vec::new();
    let mut i: usize = 0;
    while i < v.len()
        invariant
            i <= v@.len(),
            strs(out@) == v@.take(i as int).map_values(|s: &str| s@),
        decreases v@.len() - i,
    {
        let ghost before = strs(out@);
        out.push(owned(v[i]));
        assert(v@.take(i + 1) =~= v@.take(i as int).push(v@[i as int]));
        assert(strs(out@) =~= before.push(v@[i as int]@));
        assert(strs(out@) =~= v@.take(i + 1).map_values(|s: &str| s@));
        i += 1;
    }
    assert(v@.take(v@.len() as int) =~= v@);
    out
}

/// `help [command]`: the command's detailed usage; `None` for an unknown
/// command.
pub fn help_for(name: &str) -> (r: Option<Vec<String>>)
    ensures
        match r {
            Some(v) => spec_help(name@) == Some(strs(v@)),
            None => spec_help(name@) is None,
        },
{
    if str_eq(name, "ask") {
        let v = lines(&["ask — 从在场角色收集信息", "语法：ask [目标] [话题?]", "  不带参数：先选当前场景在场角色，再选话题。", "  ask [目标]：列出该角色当前视角下可问的话题。", "  ask [目标] [话题]：直接以话题 id 询问。", "示例：ask wolf、ask wolf whereabouts"]);
        assert(strs(v@) =~= seq!["ask — 从在场角色收集信息"@, "语法：ask [目标] [话题?]"@, "  不带参数：先选当前场景在场角色，再选话题。"@, "  ask [目标]：列出该角色当前视角下可问的话题。"@, "  ask [目标] [话题]：直接以话题 id 询问。"@, "示例：ask wolf、ask wolf whereabouts"@]);
        Some(v)
    } else if str_eq(name, "judge") {
        let v = lines(&["judge — 审判某角色（章级操作，不要求在场）", "语法：judge [目标]", "  不带参数：列出本章尚未审判的角色。", "  judge [目标]：触发该角色的审判剧情并记录。", "  完成本章必要审判后自动推进剧情。", "示例：judge wolf"]);
        assert(strs(v@) =~= seq!["judge — 审判某角色（章级操作，不要求在场）"@, "语法：judge [目标]"@, "  不带参数：列出本章尚未审判的角色。"@, "  judge [目标]：触发该角色的审判剧情并记录。"@, "  完成本章必要审判后自动推进剧情。"@, "示例：judge wolf"@]);
        Some(v)
    } else if str_eq(name, "move") {
        let v = lines(&["move — 在场景之间移动", "语法：move [目的地]", "  不带参数：列出当前场景可达的目的地。", "  move [目的地]：移动到指定场景（保持当前视角）。", "示例：move market"]);
        assert(strs(v@) =~= seq!["move — 在场景之间移动"@, "语法：move [目的地]"@, "  不带参数：列出当前场景可达的目的地。"@, "  move [目的地]：移动到指定场景（保持当前视角）。"@, "示例：move market"@]);
        Some(v)
    } else if str_eq(name, "gaze") {
        let v = lines(&["gaze — 切换视角", "语法：gaze", "  在左眼（影子世界）与右眼（表面世界）之间切换。", "  表面恒为真命题，影子恒为假命题，取反即得真相。"]);
        assert(strs(v@) =~= seq!["gaze — 切换视角"@, "语法：gaze"@, "  在左眼（影子世界）与右眼（表面世界）之间切换。"@, "  表面恒为真命题，影子恒为假命题，取反即得真相。"@]);
        Some(v)
    } else if str_eq(name, "map") {
        let v = lines(&["map — 章节树 / 检查点地图", "语法：map", "  浏览已经历过的 checkpoint（chapter_start / before_judgment）。", "  选择节点可回滚到该处（破坏性，需确认）。discovered 探索记忆保留。"]);
        assert(strs(v@) =~= seq!["map — 章节树 / 检查点地图"@, "语法：map"@, "  浏览已经历过的 checkpoint（chapter_start / before_judgment）。"@, "  选择节点可回滚到该处（破坏性，需确认）。discovered 探索记忆保留。"@]);
        Some(v)
    } else if str_eq(name, "note") {
        let v = lines(&["note — 查看笔记", "语法：note", "  展示玩家实际见过的对话、叙事与审判剧情文本。", "  记录基于首次查看时的快照，不随后续剧情漂移。"]);
        assert(strs(v@) =~= seq!["note — 查看笔记"@, "语法：note"@, "  展示玩家实际见过的对话、叙事与审判剧情文本。"@, "  记录基于首次查看时的快照，不随后续剧情漂移。"@]);
        Some(v)
    } else if str_eq(name, "help") {
        let v = lines(&["help — 查看指令用法", "语法：help [指令?]", "  不带参数：列出全部指令。", "  help [指令]：查看该指令详细用法。"]);
        assert(strs(v@) =~= seq!["help — 查看指令用法"@, "语法：help [指令?]"@, "  不带参数：列出全部指令。"@, "  help [指令]：查看该指令详细用法。"@]);
        Some(v)
    } else if str_eq(name, "quit") {
        let v = lines(&["quit — 退出游戏", "语法：quit", "  自动保存后退出。"]);
        assert(strs(v@) =~= seq!["quit — 退出游戏"@, "语法：quit"@, "  自动保存后退出。"@]);
        Some(v)
    } else {
        None
    }
}

/// The `i`-th token lower-cased, if there is one.
pub open spec fn arg(toks: Seq<Seq<char>>, i: int) -> Option<Seq<char>> {
    if i < toks.len() {
        Some(lower_seq(toks[i]))
    } else {
        None
    }
}

/// The view of an optional string.
pub open spec fn opt_view(o: Option<String>) -> Option<Seq<char>> {
    match o {
        Some(s) => Some(s@),
        None => None,
    }
}

/// `r` is what parsing `raw` gives: the first whitespace-separated token,
/// lower-cased, names the command; the arguments are the next tokens,
/// lower-cased, and those beyond what a command takes are ignored, except
/// that `gaze`, `map`, `note` and `quit` take none and refuse any.
pub open spec fn parsed(raw: Seq<char>, r: ParseOutcome) -> bool {
    let toks = tokens(raw);
    if toks.len() == 0 {
        r is Empty
    } else {
        let name = lower_seq(toks[0]);
        if name == "ask"@ {
            r matches ParseOutcome::Parsed(Command::Ask { target, topic }) && opt_view(target) == arg(toks, 1)
                && opt_view(topic) == arg(toks, 2)
        } else if name == "judge"@ {
            r matches ParseOutcome::Parsed(Command::Judge { target }) && opt_view(target) == arg(toks, 1)
        } else if name == "move"@ {
            r matches ParseOutcome::Parsed(Command::Move { dest }) && opt_view(dest) == arg(toks, 1)
        } else if name == "help"@ {
            r matches ParseOutcome::Parsed(Command::Help { cmd }) && opt_view(cmd) == arg(toks, 1)
        } else if name == "gaze"@ || name == "map"@ || name == "note"@ || name == "quit"@ {
            if toks.len() == 1 {
                r == ParseOutcome::Parsed(
                    if name == "gaze"@ {
                        Command::Gaze
                    } else if name == "map"@ {
                        Command::ShowMap
                    } else if name == "note"@ {
                        Command::Note
                    } else {
                        Command::Quit
                    },
                )
            } else {
                r matches ParseOutcome::TooManyArguments(n) && n@ == name
            }
        } else {
            r matches ParseOutcome::Unknown(s) && s@ == trim_seq(raw)
        }
    }
}

fn lower_arg(toks: &Vec<String>, i: usize) -> (r: Option<String>)
    ensures
        opt_view(r) == arg(strs(toks@), i as int),
{
    if i < toks.len() {
        Some(to_ascii_lower(toks[i].as_str()))
    } else {
        None
    }
}

/// Parse an input line.
pub fn parse(raw: &str) -> (r: ParseOutcome)
    ensures
        parsed(raw@, r),
{
    let toks = split_ws(raw);
    assert(strs(toks@) == tokens(raw@));
    if toks.len() == 0 {
        return ParseOutcome::Empty;
    }
    let name = to_ascii_lower(toks[0].as_str());
    let n = name.as_str();
    if str_eq(n, "ask") {
        ParseOutcome::Parsed(Command::Ask { target: lower_arg(&toks, 1), topic: lower_arg(&toks, 2) })
    } else if str_eq(n, "judge") {
        ParseOutcome::Parsed(Command::Judge { target: lower_arg(&toks, 1) })
    } else if str_eq(n, "move") {
        ParseOutcome::Parsed(Command::Move { dest: lower_arg(&toks, 1) })
    } else if str_eq(n, "help") {
        ParseOutcome::Parsed(Command::Help { cmd: lower_arg(&toks, 1) })
    } else if str_eq(n, "gaze") || str_eq(n, "map") || str_eq(n, "note") || str_eq(n, "quit") {
        if toks.len() == 1 {
            if str_eq(n, "gaze") {
                ParseOutcome::Parsed(Command::Gaze)
            } else if str_eq(n, "map") {
                ParseOutcome::Parsed(Command::ShowMap)
            } else if str_eq(n, "note") {
                ParseOutcome::Parsed(Command::Note)
            } else {
                ParseOutcome::Parsed(Command::Quit)
            }
        } else {
            ParseOutcome::TooManyArguments(name)
        }
    } else {
        ParseOutcome::Unknown(owned(trim(raw)))
    }
}

} // verus!
