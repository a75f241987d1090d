//! Reading the worker process's log lines for the control surface: an
//! error prefix, the fields of a structured line — timestamp, level,
//! module, message — or a plain message.

use vstd::prelude::*;
use crate::types::opt_view;
use crate::strutil::{
    spec_starts_with, starts_with_str, spec_contains, contains_sub, spec_find, find_sub,
    spec_split, split_str, spec_trim, trim_str, spec_trim_start_char, trim_start_char,
    spec_trim_start_seq, trim_start_matches_str, spec_tokens, tokens_str, spec_join, join_names,
    names_view,
};

verus! {

/// One parsed log line.
#[derive(Clone, Debug)]
pub struct LogEntry {
    pub timestamp: Option<String>,
    pub level: Option<String>,
    pub module: Option<String>,
    pub message: String,
    pub is_error: bool,
}

#[verifier::ext_equal]
pub struct LogEntryView {
    pub timestamp: Option<Seq<char>>,
    pub level: Option<Seq<char>>,
    pub module: Option<Seq<char>>,
    pub message: Seq<char>,
    pub is_error: bool,
}

impl View for LogEntry {
    type V = LogEntryView;

    open spec fn view(&self) -> LogEntryView {
        LogEntryView {
            timestamp: opt_view(self.timestamp),
            level: opt_view(self.level),
            module: opt_view(self.module),
            message: self.message@,
            is_error: self.is_error,
        }
    }
}

/// A structured line's timestamp: what stands between the dim marker and
/// the first `Z`, trimmed; nothing when the line has no such span.
pub open spec fn spec_timestamp(s: Seq<char>) -> Option<Seq<char>> {
    match spec_find(s, "Z"@) {
        Option::None => Option::None,
        Option::Some(zend) => match spec_find(s, "[2m"@) {
            Option::None => Option::None,
            Option::Some(start) => if start + 3 <= zend {
                Option::Some(spec_trim(s.subrange(start + 3, zend)))
            } else {
                Option::None
            },
        },
    }
}

/// A piece of a structured line with its markers stripped: trimmed, the
/// box character and the dim, green and INFO markers dropped from its
/// start, and trimmed again.
pub open spec fn clean_part(p: Seq<char>) -> Seq<char> {
    spec_trim(
        spec_trim_start_seq(
            spec_trim_start_seq(
                spec_trim_start_seq(
                    spec_trim_start_char(spec_trim(p), '\u{25A1}'),
                    "[2m"@,
                ),
                "[32m"@,
            ),
            "INFO"@,
        ),
    )
}

/// One cleaned piece folded into the module and message gathered so far:
/// the first piece holding `::` names the module and its remaining words
/// become the message; every other nonempty piece is appended to the
/// message.
pub open spec fn mm_step(
    acc: (Option<Seq<char>>, Seq<char>),
    p: Seq<char>,
) -> (Option<Seq<char>>, Seq<char>) {
    let clean = clean_part(p);
    if clean.len() == 0 {
        acc
    } else {
        if spec_contains(clean, "::"@) && acc.0 is None {
            let toks = spec_tokens(clean);
            if toks.len() == 0 {
                acc
            } else {
                (
                    Option::Some(toks[0]),
                    if toks.len() > 1 {
                        spec_join(toks.skip(1), " "@)
                    } else {
                        acc.1
                    },
                )
            }
        } else {
            if acc.1.len() == 0 {
                (acc.0, clean)
            } else {
                (acc.0, acc.1 + seq![' '] + clean)
            }
        }
    }
}

/// The fold of `mm_step` over the line's pieces.
pub open spec fn mm_fold(
    parts: Seq<Seq<char>>,
    acc: (Option<Seq<char>>, Seq<char>),
) -> (Option<Seq<char>>, Seq<char>)
    decreases parts.len(),
{
    if parts.len() == 0 {
        acc
    } else {
        mm_fold(parts.skip(1), mm_step(acc, parts[0]))
    }
}

/// The module and message of a structured line: its pieces between the
/// reset markers, cleaned and folded.
pub open spec fn spec_module_message(s: Seq<char>) -> (Option<Seq<char>>, Seq<char>) {
    mm_fold(spec_split(s, "[0m"@), (Option::None, Seq::empty()))
}

/// What one log line parses to.
pub open spec fn spec_parse_line(s: Seq<char>) -> LogEntryView {
    if spec_starts_with(s, "ERROR: "@) {
        LogEntryView {
            timestamp: Option::None,
            level: Option::Some("ERROR"@),
            module: Option::None,
            message: s.skip("ERROR: "@.len() as int),
            is_error: true,
        }
    } else if spec_contains(s, "[2m"@) && spec_contains(s, "[0m"@) {
        let mm = spec_module_message(s);
        LogEntryView {
            timestamp: spec_timestamp(s),
            level: if spec_contains(s, "[32m INFO"@) {
                Option::Some("INFO"@)
            } else {
                Option::None
            },
            module: mm.0,
            message: mm.1,
            is_error: false,
        }
    } else {
        LogEntryView {
            timestamp: Option::None,
            level: Option::None,
            module: Option::None,
            message: spec_trim(spec_trim_start_char(s, '\u{25A1}')),
            is_error: false,
        }
    }
}

/// The log reader.
#[derive(Clone, Debug)]
pub struct LogParser;

impl LogParser {
    /// Parse one log line: an `ERROR: ` prefix marks an error entry; a
    /// line carrying the terminal's dim and reset markers is read as a
    /// structured entry with timestamp, level, module and message; any
    /// other line is a plain message. Total on every input — a line
    /// whose markers are malformed simply yields fewer fields.
    pub fn parse_line(line: &str) -> (r: LogEntry)
        ensures
            r@ == spec_parse_line(line@),
    {
        if starts_with_str(line, "ERROR: ") {
            let p = "ERROR: ";
            let plen = p.unicode_len();
            let len = line.unicode_len();
            let msg = line.substring_char(plen, len).to_owned();
            proof {
                assert(line@.subrange(plen as int, len as int) =~= line@.skip(
                    "ERROR: "@.len() as int,
                ));
            }
            let r = LogEntry {
                timestamp: Option::None,
                level: Option::Some(String::from_str("ERROR")),
                module: Option::None,
                message: msg,
                is_error: true,
            };
            proof {
                assert(r@ =~= spec_parse_line(line@));
            }
            r
        } else if contains_sub(line, "[2m") && contains_sub(line, "[0m") {
            let full_len = line.unicode_len();
            let timestamp = match find_sub(line, "Z") {
                Option::None => Option::None,
                Option::Some(zend) => match find_sub(line, "[2m") {
                    Option::None => Option::None,
                    Option::Some(start) => {
                        proof {
                            reveal_strlit("[2m");
                            crate::strutil::lemma_find_some(line@, "[2m"@, 0);
                            crate::strutil::lemma_find_some(line@, "Z"@, 0);
                            assert(start + 3 <= full_len);
                        }
                        if start + 3 <= zend {
                            let piece = line.substring_char(start + 3, zend);
                            Option::Some(trim_str(piece))
                        } else {
                            Option::None
                        }
                    },
                },
            };
            let level = if contains_sub(line, "[32m INFO") {
                Option::Some(String::from_str("INFO"))
            } else {
                Option::None
            };
            let parts = split_str(line, "[0m");
            let ghost parts_view = names_view(parts@);
            let mut module: Option<String> = Option::None;
            let mut message = String::new();
            let n = parts.len();
            let mut i: usize = 0;
            proof {
                assert(parts_view.skip(0) =~= parts_view);
            }
            while i < n
                invariant
                    i <= n,
                    n == parts@.len(),
                    parts_view == names_view(parts@),
                    mm_fold(parts_view, (Option::None, Seq::<char>::empty())) == mm_fold(
                        parts_view.skip(i as int),
                        (opt_view(module), message@),
                    ),
                decreases n - i,
            {
                let ghost acc_pre = (opt_view(module), message@);
                let t0 = trim_str(parts[i].as_str());
                let t1 = trim_start_char(t0.as_str(), '\u{25A1}');
                let t2 = trim_start_matches_str(t1.as_str(), "[2m");
                let t3 = trim_start_matches_str(t2.as_str(), "[32m");
                let t4 = trim_start_matches_str(t3.as_str(), "INFO");
                let clean = trim_str(t4.as_str());
                proof {
                    assert(clean@ == clean_part(parts_view[i as int]));
                }
                if clean.as_str().unicode_len() > 0 {
                    let has_module_sep = contains_sub(clean.as_str(), "::");
                    let module_unset = match &module {
                        Option::None => true,
                        Option::Some(_) => false,
                    };
                    if has_module_sep && module_unset {
                        let mut toks = tokens_str(clean.as_str());
                        if toks.len() > 0 {
                            let rest = toks.split_off(1);
                            let ghost toks_view = spec_tokens(clean@);
                            proof {
                                assert(names_view(rest@) =~= toks_view.skip(1));
                            }
                            if rest.len() > 0 {
                                message = join_names(&rest, " ");
                            }
                            let head = match toks.pop() {
                                Option::Some(h) => h,
                                Option::None => String::new(),
                            };
                            module = Option::Some(head);
                        }
                    } else {
                        if message.as_str().unicode_len() == 0 {
                            message = clean;
                        } else {
                            message.append(" ");
                            message.append(clean.as_str());
                            proof {
                                reveal_strlit(" ");
                                assert(message@ =~= acc_pre.1 + seq![' '] + clean_part(
                                    parts_view[i as int],
                                ));
                            }
                        }
                    }
                }
                proof {
                    assert((opt_view(module), message@) == mm_step(
                        acc_pre,
                        parts_view[i as int],
                    ));
                    assert(parts_view.skip(i as int).skip(1) =~= parts_view.skip(i as int + 1));
                    assert(parts_view.skip(i as int)[0] == parts_view[i as int]);
                }
                i = i + 1;
            }
            proof {
                assert(parts_view.skip(n as int) =~= Seq::<Seq<char>>::empty());
            }
            let r = LogEntry { timestamp, level, module, message, is_error: false };
            proof {
                assert(r@ =~= spec_parse_line(line@));
            }
            r
        } else {
            let t1 = trim_start_char(line, '\u{25A1}');
            let msg = trim_str(t1.as_str());
            let r = LogEntry {
                timestamp: Option::None,
                level: Option::None,
                module: Option::None,
                message: msg,
                is_error: false,
            };
            proof {
                assert(r@ =~= spec_parse_line(line@));
            }
            r
        }
    }
}

} // verus!
