//! Messages that describe the phases of server-side processing.
use vstd::prelude::*;
use vstd::string::{StrSliceExecFns, StringExecFns};
use crate::formatting::{i32_string, i32_text};
use crate::text::{find_char_from, i32_text_value, index_from, lemma_index_from, parse_i32, str_eq};

verus! {

pub open spec fn ei_prefix() -> Seq<char> {
    "elite_insights_processing_"@
}

/// The Elite Insights counter of a component such as
/// `elite_insights_processing_3_4`: its fourth and fifth `_`-separated parts.
pub open spec fn ei_counter(c: Seq<char>) -> Option<(int, int)> {
    let u4 = index_from(c, '_', 26);
    if u4 < c.len() {
        let u5 = index_from(c, '_', u4 + 1);
        match (i32_text_value(c.subrange(26, u4)), i32_text_value(c.subrange(u4 + 1, u5))) {
            (Some(a), Some(b)) => Some((a, b)),
            _ => None,
        }
    } else {
        None
    }
}

/// The message for a named processing component.
pub open spec fn component_message(c: Seq<char>) -> Option<Seq<char>> {
    if c == "initialization"@ {
        Some("Initializing processing environment"@)
    } else if c == "config_verification"@ {
        Some("Verifying configuration files"@)
    } else if c == "elite_insights_start"@ {
        Some("Starting Elite Insights analysis"@)
    } else if c == "elite_insights_executing"@ {
        Some("Running Elite Insights CLI"@)
    } else if c == "elite_insights_processing"@ {
        Some("Processing log data with Elite Insights"@)
    } else if c == "elite_insights_complete"@ {
        Some("Elite Insights processing completed"@)
    } else if c == "topstats_start"@ {
        Some("Starting TopStats statistical analysis"@)
    } else if c == "topstats_parsing"@ {
        Some("Parsing combat data with TopStats"@)
    } else if c == "topstats_processing"@ {
        Some("Analyzing player performance metrics"@)
    } else if c == "topstats_file_processing"@ {
        Some("Processing combat log files"@)
    } else if c == "topstats_document_creation"@ {
        Some("Generating statistical documents"@)
    } else if c == "topstats_complete"@ {
        Some("Finalizing combat statistics"@)
    } else if c == "json_processing"@ {
        Some("Processing JSON combat data"@)
    } else if c == "highscores_injection"@ {
        Some("Injecting high scores data"@)
    } else if c == "tiddlywiki_start"@ {
        Some("Starting TiddlyWiki report generation"@)
    } else if c == "tiddlywiki_initializing"@ {
        Some("Initializing TiddlyWiki report engine"@)
    } else if c == "tiddlywiki_setup"@ {
        Some("Setting up wiki environment"@)
    } else if c == "tiddlywiki_init"@ {
        Some("Initializing wiki workspace"@)
    } else if c == "tiddlywiki_import"@ {
        Some("Importing combat data into template"@)
    } else if c == "tiddlywiki_build"@ {
        Some("Building interactive report"@)
    } else if c == "tiddlywiki_finalize"@ {
        Some("Finalizing report structure"@)
    } else if c == "tiddlywiki_save"@ {
        Some("Saving final HTML report"@)
    } else if c == "legacy_parser_start"@ {
        Some("Starting legacy report generation"@)
    } else if c == "legacy_start"@ {
        Some("Starting legacy parser processing"@)
    } else if c == "legacy_setup"@ {
        Some("Setting up legacy workspace"@)
    } else if c == "legacy_moved_files"@ {
        Some("Processing log files for legacy parser"@)
    } else if c == "legacy_tw5_done"@ {
        Some("Building legacy TiddlyWiki report"@)
    } else if c == "legacy_cleanup"@ {
        Some("Finalizing legacy report"@)
    } else if c == "cleanup"@ {
        Some("Cleaning up temporary files"@)
    } else if c == "complete"@ {
        Some("Processing complete"@)
    } else {
        None
    }
}

/// The message for a processing component, where the component names one.
pub open spec fn phase_text(c: Seq<char>) -> Option<Seq<char>> {
    if c.len() >= 26 && c.subrange(0, 26) == ei_prefix() {
        match ei_counter(c) {
            Some((a, b)) => Some("Processing logs with Elite Insights ("@ + i32_text(a) + "/"@ + i32_text(b) + ")"@),
            None => Some("Processing log data with Elite Insights"@),
        }
    } else {
        component_message(c)
    }
}

fn component_label(c: &str) -> (r: Option<&'static str>)
    ensures
        match r {
            Some(m) => component_message(c@) == Some(m@),
            None => component_message(c@) is None,
        },
{
    if str_eq(c, "initialization") {
        Some("Initializing processing environment")
    } else if str_eq(c, "config_verification") {
        Some("Verifying configuration files")
    } else if str_eq(c, "elite_insights_start") {
        Some("Starting Elite Insights analysis")
    } else if str_eq(c, "elite_insights_executing") {
        Some("Running Elite Insights CLI")
    } else if str_eq(c, "elite_insights_processing") {
        Some("Processing log data with Elite Insights")
    } else if str_eq(c, "elite_insights_complete") {
        Some("Elite Insights processing completed")
    } else if str_eq(c, "topstats_start") {
        Some("Starting TopStats statistical analysis")
    } else if str_eq(c, "topstats_parsing") {
        Some("Parsing combat data with TopStats")
    } else if str_eq(c, "topstats_processing") {
        Some("Analyzing player performance metrics")
    } else if str_eq(c, "topstats_file_processing") {
        Some("Processing combat log files")
    } else if str_eq(c, "topstats_document_creation") {
        Some("Generating statistical documents")
    } else if str_eq(c, "topstats_complete") {
        Some("Finalizing combat statistics")
    } else if str_eq(c, "json_processing") {
        Some("Processing JSON combat data")
    } else if str_eq(c, "highscores_injection") {
        Some("Injecting high scores data")
    } else if str_eq(c, "tiddlywiki_start") {
        Some("Starting TiddlyWiki report generation")
    } else if str_eq(c, "tiddlywiki_initializing") {
        Some("Initializing TiddlyWiki report engine")
    } else if str_eq(c, "tiddlywiki_setup") {
        Some("Setting up wiki environment")
    } else if str_eq(c, "tiddlywiki_init") {
        Some("Initializing wiki workspace")
    } else if str_eq(c, "tiddlywiki_import") {
        Some("Importing combat data into template")
    } else if str_eq(c, "tiddlywiki_build") {
        Some("Building interactive report")
    } else if str_eq(c, "tiddlywiki_finalize") {
        Some("Finalizing report structure")
    } else if str_eq(c, "tiddlywiki_save") {
        Some("Saving final HTML report")
    } else if str_eq(c, "legacy_parser_start") {
        Some("Starting legacy report generation")
    } else if str_eq(c, "legacy_start") {
        Some("Starting legacy parser processing")
    } else if str_eq(c, "legacy_setup") {
        Some("Setting up legacy workspace")
    } else if str_eq(c, "legacy_moved_files") {
        Some("Processing log files for legacy parser")
    } else if str_eq(c, "legacy_tw5_done") {
        Some("Building legacy TiddlyWiki report")
    } else if str_eq(c, "legacy_cleanup") {
        Some("Finalizing legacy report")
    } else if str_eq(c, "cleanup") {
        Some("Cleaning up temporary files")
    } else if str_eq(c, "complete") {
        Some("Processing complete")
    } else {
        None
    }
}

/// The message for a processing component; `None` for a component that names
/// none, where the caller falls back on the progress figure.
pub fn phase_message_for(component: &str) -> (r: Option<String>)
    ensures
        match r {
            Some(m) => phase_text(component@) == Some(m@),
            None => phase_text(component@) is None,
        },
{
    let n = component.unicode_len();
    if n >= 26 && str_eq(component.substring_char(0, 26), "elite_insights_processing_") {
        proof {
            lemma_index_from(component@, '_', 26);
        }
        let u4 = find_char_from(component, '_', 26);
        if u4 < n {
            proof {
                lemma_index_from(component@, '_', u4 + 1);
            }
            let u5 = find_char_from(component, '_', u4 + 1);
            let a = parse_i32(component.substring_char(26, u4));
            let b = parse_i32(component.substring_char(u4 + 1, u5));
            match (a, b) {
                (Some(x), Some(y)) => {
                    let mut s = String::from_str("Processing logs with Elite Insights (");
                    let xs = i32_string(x);
                    s.append(xs.as_str());
                    s.append("/");
                    let ys = i32_string(y);
                    s.append(ys.as_str());
                    s.append(")");
                    return Some(s);
                },
                _ => {},
            }
        }
        return Some(String::from_str("Processing log data with Elite Insights"));
    }
    match component_label(component) {
        Some(m) => Some(String::from_str(m)),
        None => None,
    }
}

} // verus!
