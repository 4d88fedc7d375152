//! One block of the status line and its rendering as a JSON object.
use vstd::prelude::*;
use crate::text::{decimal, decimal_text};

verus! {

/// The fragment a producer hands back: text plus optional styling.
pub struct ModuleOutput {
    content: String,
    color_fg: Option<String>,
    color_bg: Option<String>,
    border: Option<String>,
    separator: Option<bool>,
    separator_block_width: Option<usize>,
}

/// The mathematical value of a `ModuleOutput`.
pub ghost struct Fragment {
    pub text: Seq<char>,
    pub fg: Option<Seq<char>>,
    pub bg: Option<Seq<char>>,
    pub border: Option<Seq<char>>,
    pub separator: Option<bool>,
    pub width: Option<nat>,
}

pub open spec fn opt_text(o: Option<String>) -> Option<Seq<char>> {
    match o {
        Some(s) => Some(s@),
        None => None,
    }
}

impl View for ModuleOutput {
    type V = Fragment;

    closed spec fn view(&self) -> Fragment {
        Fragment {
            text: self.content@,
            fg: opt_text(self.color_fg),
            bg: opt_text(self.color_bg),
            border: opt_text(self.border),
            separator: self.separator,
            width: match self.separator_block_width {
                Some(w) => Some(w as nat),
                None => None,
            },
        }
    }
}

/// A fragment holding `text` and no styling.
pub open spec fn plain(text: Seq<char>) -> Fragment {
    Fragment { text, fg: None, bg: None, border: None, separator: None, width: None }
}

/// The foreground color of an error block.
pub open spec fn error_color() -> Seq<char> {
    "#ff0000"@
}

/// The fragment shown for a failure that carries message `m`.
pub open spec fn error_fragment(m: Seq<char>) -> Fragment {
    Fragment { fg: Some(error_color()), ..plain(m) }
}

/// `, "key": "value"` when a value is present, nothing otherwise.
pub open spec fn quoted_entry(key: Seq<char>, v: Option<Seq<char>>) -> Seq<char> {
    match v {
        Some(x) => ", \""@ + key + "\": \""@ + x + "\""@,
        None => seq![],
    }
}

/// `, "key": value` when a value is present, nothing otherwise.
pub open spec fn bare_entry(key: Seq<char>, v: Option<Seq<char>>) -> Seq<char> {
    match v {
        Some(x) => ", \""@ + key + "\": "@ + x,
        None => seq![],
    }
}

pub open spec fn bool_literal(b: bool) -> Seq<char> {
    if b {
        "true"@
    } else {
        "false"@
    }
}

pub open spec fn opt_bool_literal(b: Option<bool>) -> Option<Seq<char>> {
    match b {
        Some(x) => Some(bool_literal(x)),
        None => None,
    }
}

pub open spec fn opt_decimal(n: Option<nat>) -> Option<Seq<char>> {
    match n {
        Some(x) => Some(decimal(x)),
        None => None,
    }
}

/// The JSON object of a fragment: `full_text` first, then each present optional key
/// in the fixed order color, background, border, separator, separator_block_width.
pub open spec fn block_text(f: Fragment) -> Seq<char> {
    "{\"full_text\": \""@ + f.text + "\""@
        + quoted_entry("color"@, f.fg)
        + quoted_entry("background"@, f.bg)
        + quoted_entry("border"@, f.border)
        + bare_entry("separator"@, opt_bool_literal(f.separator))
        + bare_entry("separator_block_width"@, opt_decimal(f.width))
        + "}"@
}

/// With no optional field set, the object holds `full_text` alone; with all of them set,
/// it holds every key in the fixed order, strings quoted and the flag and width bare.
pub proof fn lemma_block_keys(
    text: Seq<char>,
    fg: Seq<char>,
    bg: Seq<char>,
    border: Seq<char>,
    separator: bool,
    width: nat,
)
    ensures
        block_text(plain(text)) == "{\"full_text\": \""@ + text + "\"}"@,
        block_text(
            Fragment {
                text,
                fg: Some(fg),
                bg: Some(bg),
                border: Some(border),
                separator: Some(separator),
                width: Some(width),
            },
        ) == "{\"full_text\": \""@ + text + "\", \"color\": \""@ + fg + "\", \"background\": \""@ + bg
            + "\", \"border\": \""@ + border + "\", \"separator\": "@ + bool_literal(separator)
            + ", \"separator_block_width\": "@ + decimal(width) + "}"@,
{
    reveal_strlit("{\"full_text\": \"");
    reveal_strlit("\"");
    reveal_strlit("}");
    reveal_strlit("\"}");
    reveal_strlit(", \"");
    reveal_strlit("\": \"");
    reveal_strlit("\": ");
    reveal_strlit("color");
    reveal_strlit("background");
    reveal_strlit("border");
    reveal_strlit("separator");
    reveal_strlit("separator_block_width");
    reveal_strlit("\", \"color\": \"");
    reveal_strlit("\", \"background\": \"");
    reveal_strlit("\", \"border\": \"");
    reveal_strlit("\", \"separator\": ");
    reveal_strlit(", \"separator_block_width\": ");
    assert(block_text(plain(text)) =~= "{\"full_text\": \""@ + text + "\"}"@);
    assert(block_text(
        Fragment {
            text,
            fg: Some(fg),
            bg: Some(bg),
            border: Some(border),
            separator: Some(separator),
            width: Some(width),
        },
    ) =~= "{\"full_text\": \""@ + text + "\", \"color\": \""@ + fg + "\", \"background\": \""@ + bg
        + "\", \"border\": \""@ + border + "\", \"separator\": "@ + bool_literal(separator)
        + ", \"separator_block_width\": "@ + decimal(width) + "}"@);
}

/// Renders `, "key": val` for a value rendered elsewhere, or nothing.
pub fn map_optional(key: &str, val: Option<String>) -> (r: String)
    ensures
        r@ == bare_entry(key@, opt_text(val)),
{
    match val {
        Some(v) => {
            let mut r = String::from_str(", \"");
            r.append(key);
            r.append("\": ");
            r.append(v.as_str());
            r
        },
        None => String::new(),
    }
}

/// Renders `, "key": "val"`, or nothing.
pub fn map_optional_quotes(key: &str, val: Option<String>) -> (r: String)
    ensures
        r@ == quoted_entry(key@, opt_text(val)),
{
    match val {
        Some(v) => {
            let mut r = String::from_str(", \"");
            r.append(key);
            r.append("\": \"");
            r.append(v.as_str());
            r.append("\"");
            r
        },
        None => String::new(),
    }
}

impl ModuleOutput {
    pub fn new(content: String) -> (r: Self)
        ensures
            r@ == plain(content@),
    {
        ModuleOutput {
            content,
            color_fg: None,
            color_bg: None,
            border: None,
            separator: None,
            separator_block_width: None,
        }
    }

    pub fn with_content(self, content: String) -> (r: Self)
        ensures
            r@ == (Fragment { text: content@, ..self@ }),
    {
        ModuleOutput { content, ..self }
    }

    pub fn with_color_fg(self, color: String) -> (r: Self)
        ensures
            r@ == (Fragment { fg: Some(color@), ..self@ }),
    {
        ModuleOutput { color_fg: Some(color), ..self }
    }

    pub fn with_color_bg(self, color: String) -> (r: Self)
        ensures
            r@ == (Fragment { bg: Some(color@), ..self@ }),
    {
        ModuleOutput { color_bg: Some(color), ..self }
    }

    pub fn with_border(self, border: String) -> (r: Self)
        ensures
            r@ == (Fragment { border: Some(border@), ..self@ }),
    {
        ModuleOutput { border: Some(border), ..self }
    }

    pub fn with_separator(self, separator: bool) -> (r: Self)
        ensures
            r@ == (Fragment { separator: Some(separator), ..self@ }),
    {
        ModuleOutput { separator: Some(separator), ..self }
    }

    pub fn with_separator_block_width(self, separator_block_width: usize) -> (r: Self)
        ensures
            r@ == (Fragment { width: Some(separator_block_width as nat), ..self@ }),
    {
        ModuleOutput { separator_block_width: Some(separator_block_width), ..self }
    }

    /// The text of the block.
    pub fn content(&self) -> (r: &String)
        ensures
            r@ == self@.text,
    {
        &self.content
    }

    /// Renders this fragment as one JSON object. Text and colors are inserted as they
    /// are, without escaping, so that existing consumers see the same bytes.
    pub fn to_block(&self) -> (r: String)
        ensures
            r@ == block_text(self@),
    {
        let mut r = String::from_str("{\"full_text\": \"");
        r.append(self.content.as_str());
        r.append("\"");
        let fg = map_optional_quotes("color", self.color_fg.clone());
        r.append(fg.as_str());
        let bg = map_optional_quotes("background", self.color_bg.clone());
        r.append(bg.as_str());
        let border = map_optional_quotes("border", self.border.clone());
        r.append(border.as_str());
        let sep = match self.separator {
            Some(true) => Some(String::from_str("true")),
            Some(false) => Some(String::from_str("false")),
            None => None,
        };
        let sep = map_optional("separator", sep);
        r.append(sep.as_str());
        let width = match self.separator_block_width {
            Some(w) => Some(decimal_text(w as u128)),
            None => None,
        };
        let width = map_optional("separator_block_width", width);
        r.append(width.as_str());
        r.append("}");
        r
    }
}

/// The output shown for a failure that carries message `message`.
pub fn error_output(message: String) -> (r: ModuleOutput)
    ensures
        r@ == error_fragment(message@),
{
    ModuleOutput::new(message).with_color_fg(String::from_str("#ff0000"))
}

} // verus!
