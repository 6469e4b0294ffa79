//! The formats that reports can be rendered in.
use vstd::prelude::*;

verus! {

/// The output formats that reports can be rendered in.
#[derive(Copy, Clone, PartialEq, Eq, Structural, PartialOrd, Ord, Debug)]
pub enum OutputFormat {
    /// Output in tabular format (default)
    Tabular,
    /// Output in Json format
    Json,
}

/// The name by which a format is selected on the command line.
pub open spec fn format_name(f: OutputFormat) -> Seq<char> {
    match f {
        OutputFormat::Tabular => "tabular"@,
        OutputFormat::Json => "json"@,
    }
}

impl OutputFormat {
    /// Whether progress and status lines may be written next to the report.
    pub fn supports_free_text_output(&self) -> (r: bool)
        ensures
            r == (*self == OutputFormat::Tabular),
    {
        match *self {
            OutputFormat::Tabular => true,
            OutputFormat::Json => false,
        }
    }

    /// The command-line name of this format.
    pub fn name(&self) -> (r: String)
        ensures
            r@ == format_name(*self),
    {
        match *self {
            OutputFormat::Tabular => String::from_str("tabular"),
            OutputFormat::Json => String::from_str("json"),
        }
    }

    /// The format whose command-line name is exactly `s`, if any.
    pub fn parse(s: &str) -> (r: Option<OutputFormat>)
        ensures
            r == Some(OutputFormat::Tabular) <==> s@ == "tabular"@,
            r == Some(OutputFormat::Json) <==> s@ == "json"@,
            r is None <==> (s@ != "tabular"@ && s@ != "json"@),
    {
        let given = String::from_str(s);
        let tabular = String::from_str("tabular");
        let json = String::from_str("json");
        proof {
            reveal_strlit("tabular");
            reveal_strlit("json");
            assert("tabular"@ != "json"@) by {
                assert("tabular"@[0] != "json"@[0]);
            }
        }
        if given == tabular {
            Some(OutputFormat::Tabular)
        } else if given == json {
            Some(OutputFormat::Json)
        } else {
            None
        }
    }
}

impl std::str::FromStr for OutputFormat {
    type Err = String;

    fn from_str(s: &str) -> Result<OutputFormat, String> {
        match OutputFormat::parse(s) {
            Some(f) => Ok(f),
            None => {
                let mut message = String::new();
                message.append("invalid variant: ");
                message.append(s);
                Err(message)
            },
        }
    }
}

} // verus!
