//! Output formats of reports and the escaping of text for CSV and HTML.
use crate::text::{chars_of, has_char, owned, push_char, push_str};
use vstd::prelude::*;

verus! {

/// A report output format.
#[derive(Debug, Clone, Copy, PartialEq, Eq, Structural)]
pub enum OutputFormat {
    Json,
    Csv,
    Markdown,
    Html,
    Text,
}

/// What `str::to_lowercase` makes of a text: each character replaced by
/// its Unicode lowercase mapping.
pub uninterp spec fn lowercase(s: Seq<char>) -> Seq<char>;

/// Whether every character is an ASCII lowercase letter.
pub open spec fn all_ascii_lower(s: Seq<char>) -> bool {
    forall|i: int| 0 <= i < s.len() ==> 'a' <= #[trigger] s[i] <= 'z'
}

/// Whether every character is ASCII.
pub open spec fn all_ascii(s: Seq<char>) -> bool {
    forall|i: int| 0 <= i < s.len() ==> (#[trigger] s[i] as u32) < 128
}

/// The ASCII lowercase form of a character: `A` to `Z` become `a` to `z`,
/// any other character stays.
pub open spec fn ascii_lower_char(c: char) -> char {
    if 'A' <= c <= 'Z' {
        ((c as u32) + 32) as char
    } else {
        c
    }
}

/// The ASCII lowercase form of a text, character by character.
pub open spec fn ascii_lowercase(s: Seq<char>) -> Seq<char> {
    s.map_values(|c: char| ascii_lower_char(c))
}

/// `str::to_lowercase`: the lowercase form of a text. On ASCII text the
/// Unicode lowercase mapping is the ASCII one: `A` to `Z` become `a` to
/// `z`, and every other character stays.
#[verifier::external_body]
pub(crate) fn to_lowercase(s: &str) -> (r: String)
    ensures
        r@ == lowercase(s@),
        all_ascii(s@) ==> r@ == ascii_lowercase(s@),
{
    s.to_lowercase()
}

/// The format a lowercase extension names, if any.
pub open spec fn format_for(ext: Seq<char>) -> Option<OutputFormat> {
    if ext == "json"@ {
        Some(OutputFormat::Json)
    } else if ext == "csv"@ {
        Some(OutputFormat::Csv)
    } else if ext == "md"@ || ext == "markdown"@ {
        Some(OutputFormat::Markdown)
    } else if ext == "html"@ {
        Some(OutputFormat::Html)
    } else if ext == "txt"@ || ext == "text"@ {
        Some(OutputFormat::Text)
    } else {
        None
    }
}

/// The file extension of a format.
pub open spec fn extension_of(f: OutputFormat) -> Seq<char> {
    match f {
        OutputFormat::Json => "json"@,
        OutputFormat::Csv => "csv"@,
        OutputFormat::Markdown => "md"@,
        OutputFormat::Html => "html"@,
        OutputFormat::Text => "txt"@,
    }
}

impl OutputFormat {
    /// The format a lowercase extension names.
    pub fn from_lowercase_extension(ext: &str) -> (r: Option<OutputFormat>)
        ensures
            r == format_for(ext@),
    {
        if crate::strmap::str_eq(ext, "json") {
            Some(OutputFormat::Json)
        } else if crate::strmap::str_eq(ext, "csv") {
            Some(OutputFormat::Csv)
        } else if crate::strmap::str_eq(ext, "md") || crate::strmap::str_eq(ext, "markdown") {
            Some(OutputFormat::Markdown)
        } else if crate::strmap::str_eq(ext, "html") {
            Some(OutputFormat::Html)
        } else if crate::strmap::str_eq(ext, "txt") || crate::strmap::str_eq(ext, "text") {
            Some(OutputFormat::Text)
        } else {
            None
        }
    }

    /// The format an extension names, in any letter case.
    pub fn from_extension(ext: &str) -> (r: Option<OutputFormat>)
        ensures
            r == format_for(lowercase(ext@)),
            all_ascii(ext@) ==> r == format_for(ascii_lowercase(ext@)),
    {
        let lower = to_lowercase(ext);
        OutputFormat::from_lowercase_extension(lower.as_str())
    }

    /// The file extension of the format.
    pub fn extension(&self) -> (r: &'static str)
        ensures
            r@ == extension_of(*self),
    {
        match self {
            OutputFormat::Json => "json",
            OutputFormat::Csv => "csv",
            OutputFormat::Markdown => "md",
            OutputFormat::Html => "html",
            OutputFormat::Text => "txt",
        }
    }
}

/// A format's extension names it again, and is in lowercase letters.
pub proof fn lemma_extension_roundtrip(f: OutputFormat)
    ensures
        format_for(extension_of(f)) == Some(f),
        all_ascii_lower(extension_of(f)),
{
    reveal_strlit("json");
    reveal_strlit("csv");
    reveal_strlit("md");
    reveal_strlit("markdown");
    reveal_strlit("html");
    reveal_strlit("txt");
    reveal_strlit("text");
    assert("json"@.len() == 4 && "csv"@.len() == 3 && "md"@.len() == 2 && "markdown"@.len() == 8
        && "html"@.len() == 4 && "txt"@.len() == 3 && "text"@.len() == 4);
    assert("json"@[0] == 'j' && "html"@[0] == 'h' && "csv"@[0] == 'c' && "txt"@[0] == 't');
    assert forall|i: int| 0 <= i < extension_of(f).len() implies 'a' <= #[trigger] extension_of(
        f,
    )[i] <= 'z' by {
        match f {
            OutputFormat::Json => {},
            OutputFormat::Csv => {},
            OutputFormat::Markdown => {},
            OutputFormat::Html => {},
            OutputFormat::Text => {},
        }
    }
}

/// What HTML escaping makes of one character.
pub open spec fn html_char(c: char) -> Seq<char> {
    if c == '&' {
        "&amp;"@
    } else if c == '<' {
        "&lt;"@
    } else if c == '>' {
        "&gt;"@
    } else if c == '"' {
        "&quot;"@
    } else if c == '\'' {
        "&#39;"@
    } else {
        seq![c]
    }
}

/// A text escaped for HTML, character by character.
pub open spec fn html_escape(s: Seq<char>) -> Seq<char>
    decreases s.len(),
{
    if s.len() == 0 {
        seq![]
    } else {
        html_escape(s.drop_last()) + html_char(s.last())
    }
}

/// A text with each double quote doubled.
pub open spec fn double_quotes(s: Seq<char>) -> Seq<char>
    decreases s.len(),
{
    if s.len() == 0 {
        seq![]
    } else {
        double_quotes(s.drop_last()) + if s.last() == '"' {
            seq!['"', '"']
        } else {
            seq![s.last()]
        }
    }
}

/// A text as a CSV field: quoted, with quotes doubled, when it holds a
/// comma, a quote or a line feed; else as it is.
pub open spec fn csv_escape(s: Seq<char>) -> Seq<char> {
    if has_char(s, ',') || has_char(s, '"') || has_char(s, '\n') {
        seq!['"'] + double_quotes(s) + seq!['"']
    } else {
        s
    }
}

/// Formats reports in one output format.
#[derive(Debug)]
pub struct ReportFormatter {
    format: OutputFormat,
}

impl ReportFormatter {
    /// A formatter for a format.
    pub fn new(format: OutputFormat) -> (r: Self)
        ensures
            r.output_format() == format,
    {
        ReportFormatter { format }
    }

    /// The output format.
    pub closed spec fn output_format(self) -> OutputFormat {
        self.format
    }

    /// The output format.
    pub fn format(&self) -> (f: OutputFormat)
        ensures
            f == self.output_format(),
    {
        self.format
    }

    /// A formatter for the format an extension names, in any letter case.
    pub fn from_extension(ext: &str) -> (r: Option<Self>)
        ensures
            match format_for(lowercase(ext@)) {
                Some(f) => r matches Some(x) && x.output_format() == f,
                None => r is None,
            },
            all_ascii(ext@) ==> match format_for(ascii_lowercase(ext@)) {
                Some(f) => r matches Some(x) && x.output_format() == f,
                None => r is None,
            },
    {
        match OutputFormat::from_extension(ext) {
            Some(f) => Some(ReportFormatter::new(f)),
            None => None,
        }
    }

    /// A text as a CSV field (see `csv_escape`).
    pub fn escape_csv(&self, value: &str) -> (r: String)
        ensures
            r@ == csv_escape(value@),
    {
        let cs = chars_of(value);
        let mut special = false;
        let mut i: usize = 0;
        while i < cs.len()
            invariant
                i <= cs.len(),
                cs@ == value@,
                special == exists|j: int|
                    0 <= j < i && (cs@[j] == ',' || cs@[j] == '"' || cs@[j] == '\n'),
            decreases cs.len() - i,
        {
            if cs[i] == ',' || cs[i] == '"' || cs[i] == '\n' {
                special = true;
            }
            i += 1;
        }
        proof {
            assert(special == (has_char(value@, ',') || has_char(value@, '"') || has_char(
                value@,
                '\n',
            ))) by {
                if has_char(value@, ',') {
                    let j = choose|j: int| 0 <= j < value@.len() && value@[j] == ',';
                    assert(cs@[j] == ',');
                }
                if has_char(value@, '"') {
                    let j = choose|j: int| 0 <= j < value@.len() && value@[j] == '"';
                    assert(cs@[j] == '"');
                }
                if has_char(value@, '\n') {
                    let j = choose|j: int| 0 <= j < value@.len() && value@[j] == '\n';
                    assert(cs@[j] == '\n');
                }
            }
        }
        if !special {
            return owned(value);
        }
        let mut r = String::new();
        push_char(&mut r, '"');
        let mut k: usize = 0;
        assert(cs@.take(0) =~= Seq::<char>::empty());
        while k < cs.len()
            invariant
                k <= cs.len(),
                cs@ == value@,
                r@ == seq!['"'] + double_quotes(cs@.take(k as int)),
            decreases cs.len() - k,
        {
            proof {
                assert(cs@.take(k + 1).drop_last() =~= cs@.take(k as int));
            }
            let ghost before = r@;
            if cs[k] == '"' {
                push_char(&mut r, '"');
                push_char(&mut r, '"');
            } else {
                push_char(&mut r, cs[k]);
            }
            assert(r@ =~= seq!['"'] + double_quotes(cs@.take(k + 1)));
            k += 1;
        }
        assert(cs@.take(k as int) =~= value@);
        push_char(&mut r, '"');
        r
    }

    /// A text escaped for HTML (see `html_escape`).
    pub fn escape_html(&self, value: &str) -> (r: String)
        ensures
            r@ == html_escape(value@),
    {
        let cs = chars_of(value);
        let mut r = String::new();
        let mut k: usize = 0;
        assert(cs@.take(0) =~= Seq::<char>::empty());
        while k < cs.len()
            invariant
                k <= cs.len(),
                cs@ == value@,
                r@ == html_escape(cs@.take(k as int)),
            decreases cs.len() - k,
        {
            proof {
                assert(cs@.take(k + 1).drop_last() =~= cs@.take(k as int));
            }
            let c = cs[k];
            let ghost before = r@;
            if c == '&' {
                push_str(&mut r, "&amp;");
            } else if c == '<' {
                push_str(&mut r, "&lt;");
            } else if c == '>' {
                push_str(&mut r, "&gt;");
            } else if c == '"' {
                push_str(&mut r, "&quot;");
            } else if c == '\'' {
                push_str(&mut r, "&#39;");
            } else {
                push_char(&mut r, c);
            }
            assert(r@ =~= html_escape(cs@.take(k + 1)));
            k += 1;
        }
        assert(cs@.take(k as int) =~= value@);
        r
    }
}

} // verus!
