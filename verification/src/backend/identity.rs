//! Identifying which build of the backend is actually running.
//!
//! Behaviour differs between revisions, so a failure report has to say which build
//! was involved. The version banner is written to standard error.

use vstd::prelude::*;
use vstd::string::*;

use crate::text::{
    all_space, begins_with, chars_of, contains_text, find_char, is_space, lossy_text,
    nothing_stands_before_the_first, occurs_in, opt_text, position, replaced_text, same_words,
    starts_with, string_of, trim, trimmed, trimming_takes_white_space_alone,
    trimming_undoes_padding, what_occurs_stands_between_the_rest, white_space_does_not_print,
    words_stay,
};

verus! {

/// Which backend family a worker belongs to.
#[derive(Debug, Clone, Copy, PartialEq, Eq, Structural)]
pub enum BackendFamily {
    LlamaCpp,
}

impl BackendFamily {
    pub fn to_string(&self) -> (text: String)
        ensures
            text@ == "llama.cpp"@,
    {
        match self {
            BackendFamily::LlamaCpp => "llama.cpp".to_owned(),
        }
    }
}

/// Everything known about the backend executable in use.
#[derive(Debug, Clone, PartialEq, Eq)]
pub struct BackendIdentity {
    pub family: BackendFamily,
    /// The executable that was interrogated.
    pub executable: String,
    /// Build number, when the banner reported one.
    pub build: Option<String>,
    /// Source revision, when the banner reported one.
    pub commit: Option<String>,
    /// The banner as printed, so that nothing is lost to parsing.
    pub banner: String,
}

/// What a [`BackendIdentity`] says.
pub struct Identity {
    pub family: BackendFamily,
    pub executable: Seq<char>,
    pub build: Option<Seq<char>>,
    pub commit: Option<Seq<char>>,
    pub banner: Seq<char>,
}

/// An identity in words: the family, the build and the revision where they are
/// known, and the executable.
pub open spec fn identity_text(identity: Identity) -> Seq<char> {
    "llama.cpp"@ + (match identity.build {
        Some(build) => " build "@ + build,
        None => Seq::empty(),
    }) + (match identity.commit {
        Some(commit) => " ("@ + commit + ")"@,
        None => Seq::empty(),
    }) + " at "@ + identity.executable
}

fn copy_text(text: &Option<String>) -> (copy: Option<String>)
    ensures
        opt_text(copy) == opt_text(*text),
{
    match text {
        Some(t) => Some(t.clone()),
        None => None,
    }
}

impl BackendIdentity {
    pub open spec fn view(&self) -> Identity {
        Identity {
            family: self.family,
            executable: self.executable@,
            build: opt_text(self.build),
            commit: opt_text(self.commit),
            banner: self.banner@,
        }
    }

    pub fn to_string(&self) -> (text: String)
        ensures
            text@ == identity_text(self@),
    {
        let mut text = self.family.to_string();
        let ghost start = text@;
        match &self.build {
            Some(build) => {
                text.append(" build ");
                text.append(build.as_str());
            },
            None => {},
        }
        let ghost built = match opt_text(self.build) {
            Some(build) => " build "@ + build,
            None => Seq::empty(),
        };
        assert(text@ =~= start + built);
        match &self.commit {
            Some(commit) => {
                text.append(" (");
                text.append(commit.as_str());
                text.append(")");
            },
            None => {},
        }
        let ghost committed = match opt_text(self.commit) {
            Some(commit) => " ("@ + commit + ")"@,
            None => Seq::empty(),
        };
        assert(text@ =~= start + built + committed);
        text.append(" at ");
        text.append(self.executable.as_str());
        text
    }

    /// Another copy of the identity.
    pub fn copy(&self) -> (identity: BackendIdentity)
        ensures
            identity@ == self@,
    {
        BackendIdentity {
            family: self.family,
            executable: self.executable.clone(),
            build: copy_text(&self.build),
            commit: copy_text(&self.commit),
            banner: self.banner.clone(),
        }
    }
}

/// What stands after the `version:` of the first line that begins with it, white
/// space aside.
pub open spec fn version_part(banner: Seq<char>) -> Option<Seq<char>>
    decreases banner.len(),
{
    let end = position(banner, '\n');
    let line = trimmed(banner.take(end));
    if begins_with(line, "version:"@) {
        Some(trimmed(line.skip("version:"@.len() as int)))
    } else if 0 <= end < banner.len() {
        version_part(banner.skip(end + 1))
    } else {
        None
    }
}

/// The build number: what stands before the first space.
pub open spec fn build_in(version: Seq<char>) -> Option<Seq<char>> {
    let number = version.take(position(version, ' '));
    if number.len() > 0 {
        Some(number)
    } else {
        None
    }
}

/// The revision: what stands in round brackets after the first space.
pub open spec fn commit_in(version: Seq<char>) -> Option<Seq<char>> {
    let space = position(version, ' ');
    if space < version.len() {
        let rest = trimmed(version.skip(space + 1));
        if rest.len() > 2 && rest[0] == '(' && rest.last() == ')' {
            Some(rest.subrange(1, rest.len() - 1))
        } else {
            None
        }
    } else {
        None
    }
}

/// What a version banner says of the executable that printed it.
pub open spec fn identified(executable: Seq<char>, banner: Seq<char>) -> Identity {
    Identity {
        family: BackendFamily::LlamaCpp,
        executable,
        build: match version_part(banner) {
            Some(version) => build_in(version),
            None => None,
        },
        commit: match version_part(banner) {
            Some(version) => commit_in(version),
            None => None,
        },
        banner,
    }
}

/// Finds the version in a banner.
fn find_version(banner: &[char]) -> (version: Option<Vec<char>>)
    ensures
        match version {
            Some(v) => version_part(banner@) == Some(v@),
            None => version_part(banner@) is None,
        },
{
    let label = chars_of("version:");
    let mut from: usize = 0;
    assert(banner@.skip(0) =~= banner@);
    loop
        invariant
            from <= banner@.len(),
            label@ == "version:"@,
            version_part(banner@) == version_part(banner@.skip(from as int)),
        decreases banner@.len() - from,
    {
        let rest = vstd::slice::slice_subrange(banner, from, banner.len());
        assert(rest@ =~= banner@.skip(from as int));
        let end: usize = find_char(rest, '\n');
        let raw = vstd::slice::slice_subrange(rest, 0, end);
        assert(raw@ =~= rest@.take(end as int));
        let line = trim(raw);
        if starts_with(line, label.as_slice()) {
            let after = vstd::slice::slice_subrange(line, label.len(), line.len());
            assert(after@ =~= line@.skip(label@.len() as int));
            let version = vstd::slice::slice_to_vec(trim(after));
            return Some(version);
        }
        if end >= rest.len() {
            return None;
        }
        assert(rest@.skip(end + 1) =~= banner@.skip(from + end + 1));
        from = from + end + 1;
    }
}

/// Extracts identity from a version banner.
///
/// The expected shape is a line such as `version: 9010 (d05fe1d7d)`. Anything that
/// does not match leaves the structured fields empty: an unparsed banner is still
/// evidence.
pub fn parse_banner(executable: &str, banner: &str) -> (identity: BackendIdentity)
    ensures
        identity@ == identified(executable@, banner@),
{
    let chars = chars_of(banner);
    let mut build: Option<String> = None;
    let mut commit: Option<String> = None;
    match find_version(chars.as_slice()) {
        None => {},
        Some(version) => {
            let space: usize = find_char(version.as_slice(), ' ');
            let number = vstd::slice::slice_subrange(version.as_slice(), 0, space);
            assert(number@ =~= version@.take(space as int));
            if number.len() > 0 {
                build = Some(string_of(number));
            }
            if space < version.len() {
                let remainder = vstd::slice::slice_subrange(
                    version.as_slice(),
                    space + 1,
                    version.len(),
                );
                assert(remainder@ =~= version@.skip(space + 1));
                let rest = trim(remainder);
                if rest.len() > 2 && rest[0] == '(' && rest[rest.len() - 1] == ')' {
                    let inner = vstd::slice::slice_subrange(rest, 1, rest.len() - 1);
                    commit = Some(string_of(inner));
                }
            }
        },
    }
    BackendIdentity {
        family: BackendFamily::LlamaCpp,
        executable: executable.to_owned(),
        build,
        commit,
        banner: banner.to_owned(),
    }
}

/// The banner among what an executable printed: standard error, unless only
/// standard output mentions a version.
pub open spec fn banner_of(stderr: Seq<u8>, stdout: Seq<u8>) -> Seq<char> {
    let err = replaced_text(stderr);
    let out = replaced_text(stdout);
    if !occurs_in("version:"@, err) && occurs_in("version:"@, out) {
        out
    } else {
        err
    }
}

/// Picks the banner from what an executable printed.
pub fn find_banner(stderr: &[u8], stdout: &[u8]) -> (banner: String)
    ensures
        banner@ == banner_of(stderr@, stdout@),
{
    let err = lossy_text(stderr);
    if !contains_text(err.as_str(), "version:") {
        let out = lossy_text(stdout);
        if contains_text(out.as_str(), "version:") {
            return out;
        }
    }
    err
}

/// Whether a text stands in one line.
pub open spec fn is_one_line(text: Seq<char>) -> bool {
    forall|i: int| 0 <= i < text.len() ==> #[trigger] text[i] != '\n'
}

/// Lines, each with its end.
pub open spec fn ended_lines(lines: Seq<Seq<char>>) -> Seq<char>
    decreases lines.len(),
{
    if lines.len() == 0 {
        Seq::empty()
    } else {
        lines[0].push('\n') + ended_lines(lines.drop_first())
    }
}

/// Whether a text has no white space in it.
pub open spec fn is_solid(text: Seq<char>) -> bool {
    forall|i: int| 0 <= i < text.len() ==> !is_space(#[trigger] text[i])
}

proof fn a_line_ends_at_its_end(line: Seq<char>, rest: Seq<char>)
    requires
        is_one_line(line),
    ensures
        position(line.push('\n') + rest, '\n') == line.len(),
        position(line, '\n') == line.len(),
{
    let whole = line.push('\n') + rest;
    nothing_stands_before_the_first(whole, '\n');
    nothing_stands_before_the_first(line, '\n');
    let p = position(whole, '\n');
    assert(whole[line.len() as int] == '\n');
    if p < line.len() {
        assert(whole[p] == line[p]);
    }
    if p > line.len() {
        assert(whole[line.len() as int] != '\n');
    }
    let q = position(line, '\n');
    if q < line.len() {
        assert(line[q] == '\n');
    }
}

/// Lines that begin with something else are passed over.
proof fn other_lines_are_passed_over(lines: Seq<Seq<char>>, rest: Seq<char>)
    requires
        forall|i: int|
            0 <= i < lines.len() ==> is_one_line(#[trigger] lines[i]) && !begins_with(
                trimmed(lines[i]),
                "version:"@,
            ),
    ensures
        version_part(ended_lines(lines) + rest) == version_part(rest),
    decreases lines.len(),
{
    if lines.len() == 0 {
        assert(ended_lines(lines) + rest =~= rest);
    } else {
        let tail = lines.drop_first();
        let more = ended_lines(tail) + rest;
        let whole = ended_lines(lines) + rest;
        assert(is_one_line(lines[0]) && !begins_with(trimmed(lines[0]), "version:"@));
        assert(whole =~= lines[0].push('\n') + more);
        a_line_ends_at_its_end(lines[0], more);
        assert(whole.take(lines[0].len() as int) =~= lines[0]);
        assert(whole.skip(lines[0].len() as int + 1) =~= more);
        assert forall|i: int| 0 <= i < tail.len() implies is_one_line(#[trigger] tail[i])
            && !begins_with(trimmed(tail[i]), "version:"@) by {
            assert(tail[i] == lines[i + 1]);
        }
        other_lines_are_passed_over(tail, rest);
    }
}

/// The build and the revision are read out of the first line that gives a version,
/// wherever in the banner that line stands and whatever they are: where it reads
/// `version: `, a number, a space, and a revision in round brackets, they are the number
/// and the revision. The executable and the banner are kept as they are.
pub proof fn a_version_line_is_read(
    executable: Seq<char>,
    before: Seq<Seq<char>>,
    number: Seq<char>,
    commit: Seq<char>,
    after: Seq<char>,
)
    requires
        forall|i: int|
            0 <= i < before.len() ==> is_one_line(#[trigger] before[i]) && !begins_with(
                trimmed(before[i]),
                "version:"@,
            ),
        number.len() > 0,
        is_solid(number),
        commit.len() > 0,
        is_one_line(commit),
    ensures
        ({
            let line = "version: "@ + number + " ("@ + commit + ")"@;
            let banner = ended_lines(before) + line.push('\n') + after;
            let identity = identified(executable, banner);
            &&& identity.build == Some(number)
            &&& identity.commit == Some(commit)
            &&& identity.executable == executable
            &&& identity.banner == banner
        }),
{
    let line = "version: "@ + number + " ("@ + commit + ")"@;
    let rest = line.push('\n') + after;
    let banner = ended_lines(before) + line.push('\n') + after;
    assert(banner =~= ended_lines(before) + rest);
    other_lines_are_passed_over(before, rest);
    reveal_strlit("version:");
    reveal_strlit("version: ");
    reveal_strlit(" (");
    reveal_strlit(")");
    white_space_does_not_print('v');
    white_space_does_not_print(')');
    white_space_does_not_print('(');
    let n = number.len();
    let c = commit.len();
    let none = Seq::<char>::empty();
    assert(is_one_line(line)) by {
        assert forall|i: int| 0 <= i < line.len() implies #[trigger] line[i] != '\n' by {
            if i < 9 {
                assert(line[i] == "version: "@[i]);
            } else if i < 9 + n {
                assert(line[i] == number[i - 9]);
                assert(!is_space(number[i - 9]));
            } else if i < 11 + n {
                assert(line[i] == " ("@[i - 9 - n]);
            } else if i < 11 + n + c {
                assert(line[i] == commit[i - 11 - n]);
            } else {
                assert(line[i] == ")"@[0]);
            }
        }
    }
    a_line_ends_at_its_end(line, after);
    assert(rest.take(line.len() as int) =~= line);
    assert(line[0] == 'v');
    assert(line.last() == ')');
    trimming_undoes_padding(none, line, none);
    assert(none + line + none =~= line);
    assert(line.take(8) =~= "version:"@);
    assert(begins_with(line, "version:"@));
    let version = number + " ("@ + commit + ")"@;
    assert(line.skip(8) =~= seq![' '] + version + none);
    assert(version[0] == number[0]);
    assert(version.last() == ')');
    assert(!is_space(number[0]));
    assert(all_space(seq![' '])) by {
        white_space_does_not_print(' ');
    }
    trimming_undoes_padding(seq![' '], version, none);
    assert(version_part(rest) == Some(version));
    nothing_stands_before_the_first(version, ' ');
    let space = position(version, ' ');
    white_space_does_not_print(' ');
    assert(version[n as int] == ' ');
    if space < n {
        assert(version[space] == number[space]);
        assert(!is_space(number[space]));
    }
    if space > n {
        assert(version[n as int] != ' ');
    }
    assert(version.take(space) =~= number);
    let tail = seq!['('] + commit + ")"@;
    assert(version.skip(space + 1) =~= none + tail + none);
    assert(tail[0] == '(' && tail.last() == ')');
    trimming_undoes_padding(none, tail, none);
    assert(tail.subrange(1, tail.len() - 1) =~= commit);
}

/// A banner is what the executable printed as an error, unless only what it printed as
/// output speaks of a version.
pub proof fn a_banner_is_where_the_version_is(stderr: Seq<u8>, stdout: Seq<u8>)
    ensures
        ({
            let err = replaced_text(stderr);
            let out = replaced_text(stdout);
            let in_err = exists|a: Seq<char>, b: Seq<char>| err == #[trigger] (a + "version:"@ + b);
            let in_out = exists|a: Seq<char>, b: Seq<char>| out == #[trigger] (a + "version:"@ + b);
            banner_of(stderr, stdout) == if in_out && !in_err {
                out
            } else {
                err
            }
        }),
{
    what_occurs_stands_between_the_rest("version:"@, replaced_text(stderr));
    what_occurs_stands_between_the_rest("version:"@, replaced_text(stdout));
}

/// A backend is told by where it is, behind what is known of its build: a build and a
/// commit that are known are shown whole, and one that is not known leaves the rest as it
/// is.
pub proof fn a_backend_is_told_by_what_is_known(
    identity: Identity,
    executable: Seq<char>,
    build: Seq<char>,
    commit: Seq<char>,
)
    ensures
        identity_text(Identity { executable, ..identity }) == identity_text(
            Identity { executable: Seq::empty(), ..identity },
        ) + executable,
        same_words(
            identity_text(Identity { build: None, ..identity }),
            Seq::empty(),
            identity_text(Identity { build: Some(build), ..identity }),
            " build "@ + build,
        ),
        same_words(
            identity_text(Identity { commit: None, ..identity }),
            Seq::empty(),
            identity_text(Identity { commit: Some(commit), ..identity }),
            " ("@ + commit + ")"@,
        ),
{
    let none = Seq::<char>::empty();
    let lead = "llama.cpp"@;
    let b = match identity.build {
        Some(b) => " build "@ + b,
        None => none,
    };
    let c = match identity.commit {
        Some(c) => " ("@ + c + ")"@,
        None => none,
    };
    let at = " at "@ + identity.executable;
    let first = identity_text(Identity { build: None, ..identity });
    let second = identity_text(Identity { build: Some(build), ..identity });
    assert(first =~= lead + none + (c + at));
    assert(second =~= lead + (" build "@ + build) + (c + at));
    words_stay(lead, none, " build "@ + build, c + at, first, second);
    let first = identity_text(Identity { commit: None, ..identity });
    let second = identity_text(Identity { commit: Some(commit), ..identity });
    let shown = " ("@ + commit + ")"@;
    assert(first =~= (lead + b) + none + at);
    assert(second =~= (lead + b) + shown + at);
    words_stay(lead + b, none, shown, at, first, second);
    assert(identity_text(Identity { executable, ..identity }) =~= identity_text(
        Identity { executable: none, ..identity },
    ) + executable);
}

/// The version is what follows the label on the first line that begins with it, white space
/// around either aside, whether or not anything follows that line.
pub proof fn the_version_follows_its_label(
    before: Seq<Seq<char>>,
    a: Seq<char>,
    mid: Seq<char>,
    version: Seq<char>,
    b: Seq<char>,
    after: Seq<char>,
)
    requires
        forall|i: int|
            0 <= i < before.len() ==> is_one_line(#[trigger] before[i]) && !begins_with(
                trimmed(before[i]),
                "version:"@,
            ),
        all_space(a) && all_space(mid) && all_space(b),
        is_one_line(a) && is_one_line(mid) && is_one_line(version) && is_one_line(b),
        version.len() > 0,
        !is_space(version[0]),
        !is_space(version.last()),
    ensures
        ({
            let line = a + "version:"@ + mid + version + b;
            &&& version_part(ended_lines(before) + line) == Some(version)
            &&& version_part(ended_lines(before) + (line.push('\n') + after)) == Some(version)
        }),
{
    let line = a + "version:"@ + mid + version + b;
    let none = Seq::<char>::empty();
    reveal_strlit("version:");
    white_space_does_not_print('v');
    let inner = "version:"@ + mid + version;
    assert(line =~= a + inner + b);
    assert(inner[0] == 'v');
    assert(inner.last() == version.last());
    trimming_undoes_padding(a, inner, b);
    assert(inner.take(8) =~= "version:"@);
    assert(inner.skip(8) =~= mid + version + none);
    trimming_undoes_padding(mid, version, none);
    assert(is_one_line(line)) by {
        let x = a.len();
        let y = x + 8 + mid.len();
        let z = y + version.len();
        assert forall|i: int| 0 <= i < line.len() implies #[trigger] line[i] != '\n' by {
            if i < x {
                assert(line[i] == a[i]);
            } else if i < x + 8 {
                assert(line[i] == "version:"@[i - x]);
            } else if i < y {
                assert(line[i] == mid[i - x - 8]);
            } else if i < z {
                assert(line[i] == version[i - y]);
            } else {
                assert(line[i] == b[i - z]);
            }
        }
    }
    a_line_ends_at_its_end(line, after);
    other_lines_are_passed_over(before, line);
    assert(line.take(line.len() as int) =~= line);
    assert(version_part(line) == Some(version));
    let rest = line.push('\n') + after;
    other_lines_are_passed_over(before, rest);
    assert(rest.take(line.len() as int) =~= line);
    assert(version_part(rest) == Some(version));
}

/// A version gives a build, which is all of it up to its first space, and a revision only
/// where what follows that space stands in round brackets, white space around them aside.
pub proof fn a_version_has_a_build_and_a_revision(
    number: Seq<char>,
    rest: Seq<char>,
    commit: Seq<char>,
)
    requires
        forall|i: int| 0 <= i < number.len() ==> #[trigger] number[i] != ' ',
    ensures
        number.len() > 0 ==> build_in(number) == Some(number) && build_in(number + seq![' '] + rest)
            == Some(number),
        number.len() == 0 ==> build_in(number) is None && build_in(
            number + seq![' '] + rest,
        ) is None,
        commit_in(number) is None,
        commit_in(number + seq![' '] + rest) == Some(commit) <==> commit.len() > 0 && exists|
            a: Seq<char>,
            b: Seq<char>,
        |
            all_space(a) && all_space(b) && rest == #[trigger] (a + (seq!['('] + commit + seq![')'])
                + b),
{
    let version = number + seq![' '] + rest;
    let n = number.len() as int;
    nothing_stands_before_the_first(version, ' ');
    nothing_stands_before_the_first(number, ' ');
    let space = position(version, ' ');
    assert(version[n] == ' ');
    if space < n {
        assert(version[space] == number[space]);
    }
    if space > n {
        assert(version[n] != ' ');
    }
    let alone = position(number, ' ');
    if alone < n {
        assert(number[alone] == ' ');
    }
    assert(number.take(n) =~= number);
    assert(version.take(n) =~= number);
    assert(version.skip(n + 1) =~= rest);
    white_space_does_not_print('(');
    white_space_does_not_print(')');
    let framed = seq!['('] + commit + seq![')'];
    assert(framed[0] == '(' && framed.last() == ')');
    assert(framed.subrange(1, framed.len() - 1) =~= commit);
    if commit_in(version) == Some(commit) {
        assert(trimmed(rest) =~= framed);
        trimming_takes_white_space_alone(rest);
        let (from, to) = choose|from: int, to: int|
            #![trigger rest.subrange(from, to)]
            {
                &&& 0 <= from <= to <= rest.len()
                &&& trimmed(rest) == rest.subrange(from, to)
                &&& all_space(rest.take(from))
                &&& all_space(rest.skip(to))
            };
        assert(rest =~= rest.take(from) + framed + rest.skip(to));
    }
    if commit.len() > 0 && exists|a: Seq<char>, b: Seq<char>|
        all_space(a) && all_space(b) && rest == #[trigger] (a + (seq!['('] + commit + seq![')'])
            + b) {
        let (a, b) = choose|a: Seq<char>, b: Seq<char>|
            all_space(a) && all_space(b) && rest == #[trigger] (a + (seq!['('] + commit
                + seq![')']) + b);
        trimming_undoes_padding(a, framed, b);
    }
}

/// What is read of a banner without a line that gives a version is that there is none.
pub proof fn no_version_is_made_up(
    executable: Seq<char>,
    lines: Seq<Seq<char>>,
    last: Seq<char>,
)
    requires
        forall|i: int|
            0 <= i < lines.len() ==> is_one_line(#[trigger] lines[i]) && !begins_with(
                trimmed(lines[i]),
                "version:"@,
            ),
        is_one_line(last),
        !begins_with(trimmed(last), "version:"@),
    ensures
        ({
            let identity = identified(executable, ended_lines(lines) + last);
            &&& identity.build is None
            &&& identity.commit is None
            &&& identity.executable == executable
            &&& identity.banner == ended_lines(lines) + last
        }),
{
    other_lines_are_passed_over(lines, last);
    a_line_ends_at_its_end(last, Seq::empty());
    assert(last.take(last.len() as int) =~= last);
}

} // verus!
