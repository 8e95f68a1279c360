use vstd::prelude::*;
use vstd::string::{StrSliceExecFns, StringExecFns};

use crate::err::ScrapeError;
use crate::utils::{find_char, spec_find, str_eq};

verus! {

/// Run-wide configuration, loaded once at process start from a line-oriented
/// `key=value` file and immutable afterwards.
pub struct GlobalConfig {
    pub domain: String,
    pub bc_account_id: String,
    pub missing_videos: Vec<String>,
}

/// The accumulating result of reading the configuration lines in order:
/// the last `DOMAIN` value, the last `BC_ACCOUNT_ID` value, and every
/// `missing` value in line order.
pub type SpecConfigAcc = (Option<Seq<char>>, Option<Seq<char>>, Seq<Seq<char>>);

pub open spec fn opt_string_view(o: Option<String>) -> Option<Seq<char>> {
    match o {
        Some(s) => Some(s@),
        None => None,
    }
}

/// One configuration line applied to the accumulator.  Comment lines are
/// skipped; a non-comment line without `=` is fatal; `missing` keys collect
/// into the exclusion list; unrecognized keys are ignored.
pub open spec fn spec_apply_line(acc: SpecConfigAcc, line: Seq<char>) -> Option<SpecConfigAcc> {
    if line.len() > 0 && line[0] == '#' {
        Some(acc)
    } else {
        match spec_find(line, '=') {
            None => None,
            Some(i) => {
                let k = line.subrange(0, i);
                let v = line.subrange(i + 1, line.len() as int);
                if k == "missing"@ {
                    Some((acc.0, acc.1, acc.2.push(v)))
                } else if k == "DOMAIN"@ {
                    Some((Some(v), acc.1, acc.2))
                } else if k == "BC_ACCOUNT_ID"@ {
                    Some((acc.0, Some(v), acc.2))
                } else {
                    Some(acc)
                }
            },
        }
    }
}

/// All configuration lines applied in order; `None` is a fatal parse.
pub open spec fn spec_parse_lines(lines: Seq<Seq<char>>) -> Option<SpecConfigAcc>
    decreases lines.len(),
{
    if lines.len() == 0 {
        Some((None, None, Seq::empty()))
    } else {
        match spec_parse_lines(lines.drop_last()) {
            None => None,
            Some(acc) => spec_apply_line(acc, lines.last()),
        }
    }
}

/// Once some prefix of the lines fails to parse, the whole file does.
proof fn lemma_parse_none_propagates(lines: Seq<Seq<char>>, i: int, j: int)
    requires
        0 <= i <= j <= lines.len(),
        spec_parse_lines(lines.subrange(0, i)) is None,
    ensures
        spec_parse_lines(lines.subrange(0, j)) is None,
    decreases j - i,
{
    if i < j {
        assert(lines.subrange(0, i + 1).drop_last() =~= lines.subrange(0, i));
        lemma_parse_none_propagates(lines, i + 1, j);
    }
}

impl GlobalConfig {
    /// Reads the configuration from its lines.  `DOMAIN` and `BC_ACCOUNT_ID`
    /// are required (the last occurrence wins); every `missing=` line joins
    /// the exclusion set in order; `#` lines are comments; any other line
    /// without `=` is a fatal schema violation.
    pub fn from_lines(lines: &Vec<String>) -> (r: Result<GlobalConfig, ScrapeError>)
        ensures
            match r {
                Ok(c) => spec_parse_lines(lines.deep_view()) == Some(
                    (Some(c.domain@), Some(c.bc_account_id@), c.missing_videos.deep_view()),
                ),
                Err(e) => e is SchemaViolation && (spec_parse_lines(lines.deep_view()) is None || (
                spec_parse_lines(lines.deep_view())->0).0 is None || (spec_parse_lines(
                    lines.deep_view(),
                )->0).1 is None),
            },
    {
        let ghost ld = lines.deep_view();
        let mut domain: Option<String> = None;
        let mut acct: Option<String> = None;
        let mut missing: Vec<String> = Vec::new();
        let n = lines.len();
        proof {
            assert(ld.subrange(0, 0) =~= Seq::<Seq<char>>::empty());
        }
        let mut i: usize = 0;
        while i < n
            invariant
                n == lines@.len(),
                ld == lines.deep_view(),
                i <= n,
                spec_parse_lines(ld.subrange(0, i as int)) == Some(
                    (opt_string_view(domain), opt_string_view(acct), missing.deep_view()),
                ),
            decreases n - i,
        {
            let line = &lines[i];
            let ghost lv = line@;
            proof {
                assert(ld[i as int] == lines@[i as int]@);
                assert(ld.subrange(0, i + 1).drop_last() =~= ld.subrange(0, i as int));
                assert(ld.subrange(0, i + 1).last() == lv);
            }
            let ghost acc_pre = (opt_string_view(domain), opt_string_view(acct), missing.deep_view());
            let llen = line.as_str().unicode_len();
            if llen > 0 && line.as_str().get_char(0) == '#' {
                proof {
                    assert(spec_apply_line(acc_pre, lv) == Some(acc_pre));
                }
            } else {
                match find_char(line.as_str(), '=') {
                    None => {
                        proof {
                            lemma_parse_none_propagates(ld, i + 1, n as int);
                            assert(ld.subrange(0, n as int) =~= ld);
                        }
                        return Err(
                            ScrapeError::SchemaViolation(
                                String::from_str("config line without ="),
                            ),
                        );
                    },
                    Some(eq) => {
                        proof {
                            crate::utils::lemma_spec_find(lv, '=');
                        }
                        let k = line.as_str().substring_char(0, eq);
                        let v = line.as_str().substring_char(eq + 1, llen);
                        let ghost kv = lv.subrange(0, eq as int);
                        let ghost vv = lv.subrange(eq + 1, lv.len() as int);
                        let vs = String::from_str(v);
                        let ghost old_missing = missing.deep_view();
                        if str_eq(k, "missing") {
                            missing.push(vs);
                            proof {
                                assert(missing.deep_view() =~= old_missing.push(vv));
                                assert(spec_apply_line(acc_pre, lv) == Some(
                                    (acc_pre.0, acc_pre.1, acc_pre.2.push(vv)),
                                ));
                            }
                        } else if str_eq(k, "DOMAIN") {
                            domain = Some(vs);
                            proof {
                                assert(spec_apply_line(acc_pre, lv) == Some(
                                    (Some(vv), acc_pre.1, acc_pre.2),
                                ));
                            }
                        } else if str_eq(k, "BC_ACCOUNT_ID") {
                            acct = Some(vs);
                            proof {
                                assert(spec_apply_line(acc_pre, lv) == Some(
                                    (acc_pre.0, Some(vv), acc_pre.2),
                                ));
                            }
                        } else {
                            proof {
                                assert(spec_apply_line(acc_pre, lv) == Some(acc_pre));
                            }
                        }
                    },
                }
            }
            i += 1;
        }
        proof {
            assert(ld.subrange(0, n as int) =~= ld);
        }
        match (domain, acct) {
            (Some(d), Some(a)) => Ok(
                GlobalConfig { domain: d, bc_account_id: a, missing_videos: missing },
            ),
            (d, a) => {
                proof {
                    assert(opt_string_view(d) is None || opt_string_view(a) is None);
                }
                Err(ScrapeError::SchemaViolation(String::from_str("missing required config key")))
            },
        }
    }
}

impl Default for GlobalConfig {
    /// An empty configuration: empty domain and account id, no exclusions.
    fn default() -> (r: Self)
        ensures
            r.domain@.len() == 0,
            r.bc_account_id@.len() == 0,
            r.missing_videos@.len() == 0,
    {
        GlobalConfig { domain: String::new(), bc_account_id: String::new(), missing_videos: Vec::new() }
    }
}

} // verus!
