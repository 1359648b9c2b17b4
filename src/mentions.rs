//! Reaction rules: a configuration that maps regular expressions to the
//! emoji to react with, and the search for the first rule that matches a
//! message.
//!
//! The configuration is read line by line. Blank lines and lines whose text
//! starts with `# ` are skipped. A line that starts with a space or a tab
//! holds a pattern for the emoji named last; any other line names an emoji.
use vstd::prelude::*;
use vstd::string::StringSliceAdditionalSpecFns;
use vstd::utf8::{decode_utf8, encode_utf8, valid_utf8};
use crate::text::{trim, trim_of, utf8_string};

verus! {

#[verifier::external_type_specification]
#[verifier::external_body]
pub struct ExRegex(regex::bytes::Regex);

/// Whether a pattern compiles as a case-insensitive regular expression.
pub uninterp spec fn pattern_compiles(pattern: Seq<char>) -> bool;

/// Relies on `regex::bytes::RegexBuilder::build` with `case_insensitive`:
/// the compiled expression, or an error when the pattern is not valid.
#[verifier::external_body]
fn build_regex(pattern: &str) -> (r: Option<regex::bytes::Regex>)
    ensures
        r is Some <==> pattern_compiles(pattern@),
{
    regex::bytes::RegexBuilder::new(pattern).case_insensitive(true).build().ok()
}

/// Relies on `regex::bytes::Regex::is_match`: whether the expression matches
/// somewhere in the bytes.
#[verifier::external_body]
fn regex_is_match(re: &regex::bytes::Regex, haystack: &[u8]) -> (r: bool) {
    re.is_match(haystack)
}

/// The lines of `b` from `start`, where the current line has been scanned
/// up to `i`: split at each newline, the last line running to the end.
pub open spec fn split_lines(b: Seq<u8>, start: int, i: int) -> Seq<Seq<u8>>
    decreases b.len() - i,
{
    if i >= b.len() {
        seq![b.subrange(start, b.len() as int)]
    } else if b[i] == 10 {
        seq![b.subrange(start, i)] + split_lines(b, i + 1, i + 1)
    } else {
        split_lines(b, start, i + 1)
    }
}

/// A line whose text, trimmed, starts with `# `.
pub open spec fn is_comment(trimmed: Seq<char>) -> bool {
    encode_utf8(trimmed).len() >= 2 && encode_utf8(trimmed)[0] == 35 && encode_utf8(trimmed)[1]
        == 32
}

/// What one line does to the rules and to the emoji named last. A line
/// that is not UTF-8 is skipped like a blank one.
pub open spec fn line_step(
    state: (Seq<(Seq<char>, Seq<char>)>, Option<Seq<char>>),
    line: Seq<u8>,
) -> (Seq<(Seq<char>, Seq<char>)>, Option<Seq<char>>) {
    let (rules, emoji) = state;
    if !valid_utf8(line) {
        state
    } else {
        let t = trim_of(decode_utf8(line));
        if encode_utf8(t).len() == 0 || is_comment(t) {
            state
        } else if line.len() > 0 && (line[0] == 32 || line[0] == 9) {
            match emoji {
                Some(e) => (rules.push((t, e)), emoji),
                None => state,
            }
        } else {
            (rules, Some(t))
        }
    }
}

/// The rules (pattern, emoji) that the lines give, and the emoji named last.
pub open spec fn rules_of(lines: Seq<Seq<u8>>) -> (Seq<(Seq<char>, Seq<char>)>, Option<Seq<char>>)
    decreases lines.len(),
{
    if lines.len() == 0 {
        (seq![], None)
    } else {
        line_step(rules_of(lines.drop_last()), lines.last())
    }
}

/// The rules of a configuration text, in order.
pub open spec fn config_rules(config: Seq<u8>) -> Seq<(Seq<char>, Seq<char>)> {
    rules_of(split_lines(config, 0, 0)).0
}

/// The rules whose pattern compiles, in order.
pub open spec fn compiled_rules(rules: Seq<(Seq<char>, Seq<char>)>) -> Seq<(Seq<char>, Seq<char>)>
    decreases rules.len(),
{
    if rules.len() == 0 {
        seq![]
    } else if pattern_compiles(rules.last().0) {
        compiled_rules(rules.drop_last()).push(rules.last())
    } else {
        compiled_rules(rules.drop_last())
    }
}

/// The rules of a configuration text: (pattern, emoji), in order.
pub fn parse_config(config: &str) -> (r: Vec<(String, String)>)
    requires
        config.spec_bytes().len() < usize::MAX,
    ensures
        r@.len() == config_rules(config.spec_bytes()).len(),
        forall|i: int|
            0 <= i < r@.len() ==> ((#[trigger] r@[i]).0@, r@[i].1@) == config_rules(
                config.spec_bytes(),
            )[i],
{
    let b = config.as_bytes();
    let mut rules: Vec<(String, String)> = Vec::new();
    let mut emoji: Option<String> = None;
    let ghost mut done: Seq<Seq<u8>> = seq![];
    let mut start: usize = 0;
    let mut i: usize = 0;
    loop
        invariant
            b@ == config.spec_bytes(),
            b@.len() < usize::MAX,
            start <= i <= b@.len(),
            split_lines(b@, 0, 0) == done + split_lines(b@, start as int, i as int),
            rules@.len() == rules_of(done).0.len(),
            forall|k: int|
                0 <= k < rules@.len() ==> ((#[trigger] rules@[k]).0@, rules@[k].1@)
                    == rules_of(done).0[k],
            match emoji {
                Some(e) => rules_of(done).1 == Some(e@),
                None => rules_of(done).1 is None,
            },
        decreases b@.len() + 1 - i,
    {
        if i < b.len() && b[i] != 10 {
            i = i + 1;
            continue;
        }
        let line = vstd::slice::slice_subrange(b, start, i);
        let ghost before = done;
        proof {
            done = done.push(line@);
            assert(done.drop_last() == before);
            assert(done.last() == line@);
            if i < b@.len() {
                assert(split_lines(b@, start as int, i as int) == seq![line@] + split_lines(
                    b@,
                    i + 1,
                    i + 1,
                ));
                assert(before + (seq![line@] + split_lines(b@, i + 1, i + 1)) =~= done
                    + split_lines(b@, i + 1, i + 1));
            } else {
                assert(split_lines(b@, start as int, i as int) == seq![line@]);
                assert(before + seq![line@] =~= done);
            }
        }
        let ghost old_rules = rules@;
        let ghost state = rules_of(before);
        proof {
            assert(rules_of(done) == line_step(state, line@));
        }
        if let Some(text) = utf8_string(vstd::slice::slice_to_vec(line)) {
            let t = trim(text.as_str());
            let tb = t.as_bytes();
            let skip = tb.len() == 0 || (tb.len() >= 2 && tb[0] == 35 && tb[1] == 32);
            assert(skip == (encode_utf8(t@).len() == 0 || is_comment(t@)));
            if !skip {
                if line.len() > 0 && (line[0] == 32 || line[0] == 9) {
                    if let Some(e) = &emoji {
                        let p = t.to_owned();
                        let q = e.clone();
                        rules.push((p, q));
                        assert(rules_of(done).0 == state.0.push((t@, e@)));
                    }
                } else {
                    emoji = Some(t.to_owned());
                }
            }
        }
        proof {
            assert forall|k: int| 0 <= k < rules@.len() implies ((#[trigger] rules@[k]).0@,
                rules@[k].1@) == rules_of(done).0[k] by {
                if k < old_rules.len() {
                    assert(rules@[k] == old_rules[k]);
                }
            }
        }
        if i == b.len() {
            proof {
                assert(done =~= split_lines(b@, 0, 0));
            }
            return rules;
        }
        i = i + 1;
        start = i;
    }
}

/// The reaction rules, with their patterns compiled.
pub struct Mentions {
    regex_map: Vec<(regex::bytes::Regex, String, String)>,
}

impl Mentions {
    /// The patterns and emoji of the rules, in order.
    pub closed spec fn rules(&self) -> Seq<(Seq<char>, Seq<char>)> {
        self.regex_map@.map_values(|e: (regex::bytes::Regex, String, String)| (e.1@, e.2@))
    }

    /// The rules of a configuration text whose patterns compile; the others
    /// are left out.
    pub fn from_config(config: &str) -> (r: Mentions)
        requires
            config.spec_bytes().len() < usize::MAX,
        ensures
            r.rules() == compiled_rules(config_rules(config.spec_bytes())),
    {
        let rules = parse_config(config);
        let ghost all = config_rules(config.spec_bytes());
        let mut regex_map: Vec<(regex::bytes::Regex, String, String)> = Vec::new();
        let mut i: usize = 0;
        while i < rules.len()
            invariant
                i <= rules@.len(),
                rules@.len() == all.len(),
                forall|k: int| 0 <= k < rules@.len() ==> ((#[trigger] rules@[k]).0@, rules@[k].1@)
                    == all[k],
                regex_map@.map_values(|e: (regex::bytes::Regex, String, String)| (e.1@, e.2@))
                    == compiled_rules(all.subrange(0, i as int)),
            decreases rules@.len() - i,
        {
            let (pattern, emoji) = &rules[i];
            let ghost prev = regex_map@;
            assert(all.subrange(0, i + 1).drop_last() == all.subrange(0, i as int));
            assert(all.subrange(0, i + 1).last() == all[i as int]);
            if let Some(re) = build_regex(pattern.as_str()) {
                regex_map.push((re, pattern.clone(), emoji.clone()));
                assert(regex_map@.map_values(|e: (regex::bytes::Regex, String, String)| (e.1@, e.2@))
                    =~= prev.map_values(|e: (regex::bytes::Regex, String, String)| (e.1@, e.2@)).push(
                    all[i as int],
                ));
            }
            i = i + 1;
        }
        assert(all.subrange(0, all.len() as int) == all);
        Mentions { regex_map }
    }

    /// The emoji of the first rule whose expression matches the text.
    pub fn first_match(&self, text: &[u8]) -> (r: Option<String>)
        ensures
            r matches Some(e) ==> exists|i: int| 0 <= i < self.rules().len() && self.rules()[i].1 == e@,
    {
        let mut i: usize = 0;
        while i < self.regex_map.len()
            invariant
                i <= self.regex_map@.len(),
            decreases self.regex_map@.len() - i,
        {
            if regex_is_match(&self.regex_map[i].0, text) {
                let e = self.regex_map[i].2.clone();
                assert(self.rules()[i as int].1 == e@);
                return Some(e);
            }
            i = i + 1;
        }
        None
    }
}

} // verus!
