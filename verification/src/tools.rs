//! The agent tool registry (the tool layer is the domain API).

use vstd::prelude::*;

verus! {

/// Which parameter schema a tool takes.
#[derive(Debug, Clone, Copy, PartialEq, Eq, Structural)]
pub enum ToolParams {
    /// No parameters (an empty object).
    Empty,
    /// The schema of `CreateNoteRequest`.
    CreateNote,
    /// The schema of `SearchQuery`.
    Search,
}

/// A tool of the registry.
#[derive(Debug, Clone, Copy)]
pub struct ToolSpec {
    /// The name the agent calls.
    pub name: &'static str,
    /// What the agent chooses it by.
    pub description: &'static str,
    /// Its parameter schema.
    pub params: ToolParams,
}

/// The registered tools: `list_projects`, `create_note` and `search_content`, in that order.
pub fn tools() -> (r: Vec<ToolSpec>)
    ensures
        r.len() == 3,
        r[0].name@ == "list_projects"@ && r[0].params == ToolParams::Empty,
        r[1].name@ == "create_note"@ && r[1].params == ToolParams::CreateNote,
        r[2].name@ == "search_content"@ && r[2].params == ToolParams::Search,
        r[0].description@ == "列出全部项目（含敏感开关与当前阶段信息），供项目推断与项目切换使用。"@,
        r[1].description@ == "在指定项目下创建笔记（Markdown 正文 + 可选目录 / 标签）。"@,
        r[2].description@ == "全文检索（含 OCR 文本），返回带 snippet 与 provenance 的命中列表。"@,
{
    let mut r: Vec<ToolSpec> = Vec::new();
    r.push(ToolSpec {
        name: "list_projects",
        description: "列出全部项目（含敏感开关与当前阶段信息），供项目推断与项目切换使用。",
        params: ToolParams::Empty,
    });
    r.push(ToolSpec {
        name: "create_note",
        description: "在指定项目下创建笔记（Markdown 正文 + 可选目录 / 标签）。",
        params: ToolParams::CreateNote,
    });
    r.push(ToolSpec {
        name: "search_content",
        description: "全文检索（含 OCR 文本），返回带 snippet 与 provenance 的命中列表。",
        params: ToolParams::Search,
    });
    r
}

} // verus!
