//! Post-scan scripts: descriptors parsed out of script files, the tag
//! filter, and assembly of the command a script runs with.

use vstd::prelude::*;
use crate::address::ArwahIpAddress;
use crate::input::ArwahScriptsRequired;
use crate::scan::{arwah_contains_text, spec_has_substring};
use crate::fmt_text::arwah_u64_text;

verus! {

/// One script's descriptor, as its header block declares it.
#[derive(Debug, Clone)]
pub struct ArwahScriptFile {
    pub path: Option<String>,
    pub tags: Option<Vec<String>>,
    pub developer: Option<Vec<String>>,
    pub port: Option<String>,
    pub ports_separator: Option<String>,
    pub call_format: Option<String>,
}

/// The script configuration file: which tags are approved, and where the
/// scripts live.
#[derive(Debug, Clone)]
pub struct ArwahScriptConfig {
    pub tags: Option<Vec<String>>,
    pub ports: Option<Vec<String>>,
    pub developer: Option<Vec<String>>,
    pub directory: Option<String>,
}

/// One script ready to run against one host.
#[derive(Debug, Clone)]
pub struct ArwahScript {
    pub path: Option<String>,
    pub ip: ArwahIpAddress,
    pub open_ports: Vec<u16>,
    pub trigger_port: Option<String>,
    pub ports_separator: Option<String>,
    pub tags: Option<Vec<String>>,
    pub call_format: Option<String>,
}

/// What the descriptor grammar makes of one header block: the block is
/// TOML, and the fields keep their declared types.
pub uninterp spec fn spec_script_toml_of(s: Seq<char>) -> Option<ArwahScriptFile>;

/// Relies on `toml::from_str` into a TOML table and on the value
/// accessors: the three optional strings of a descriptor are read, and a
/// block that is no TOML table is rejected.
#[verifier::external_body]
fn arwah_script_toml_strings(s: &str) -> (r: Option<(Option<String>, Option<String>, Option<String>)>)
    ensures
        match r {
            Some(h) => spec_script_toml_of(s@) matches Some(f) && f.port == h.0
                && f.ports_separator == h.1 && f.call_format == h.2,
            None => spec_script_toml_of(s@) is None,
        },
{
    let table: toml::Table = toml::from_str(s).ok()?;
    let text = |k: &str| table.get(k).and_then(|v| v.as_str().map(str::to_owned));
    Some((text("port"), text("ports_separator"), text("call_format")))
}

/// Relies on `toml::from_str` into a TOML table and on the value
/// accessors, as the strings wrapper does, for the descriptor's two string
/// lists.
#[verifier::external_body]
fn arwah_script_toml_lists(s: &str) -> (r: Option<(Option<Vec<String>>, Option<Vec<String>>)>)
    ensures
        match r {
            Some(h) => spec_script_toml_of(s@) matches Some(f) && f.tags == h.0 && f.developer
                == h.1,
            None => spec_script_toml_of(s@) is None,
        },
{
    let table: toml::Table = toml::from_str(s).ok()?;
    let list = |k: &str| table.get(k).and_then(|v| v.as_array()).map(
        |a| a.iter().filter_map(|x| x.as_str().map(str::to_owned)).collect::<Vec<String>>(),
    );
    Some((list("tags"), list("developer")))
}

/// The index of the first newline at or after `i`, or the text's length
/// where none follows.
pub open spec fn spec_line_end(s: Seq<char>, i: int) -> int
    decreases s.len() - i,
{
    if i < 0 || i >= s.len() {
        s.len() as int
    } else if s[i] == '\n' {
        i
    } else {
        spec_line_end(s, i + 1)
    }
}

/// A line's characters with every hash mark removed.
pub open spec fn spec_drop_hashes(l: Seq<char>) -> Seq<char>
    decreases l.len(),
{
    if l.len() == 0 {
        Seq::empty()
    } else if l.last() == '#' {
        spec_drop_hashes(l.drop_last())
    } else {
        spec_drop_hashes(l.drop_last()).push(l.last())
    }
}

/// The header block read from position `i` on: lines are taken while they
/// start with `#`; each contributes its text without hash marks, trimmed,
/// and a newline.
pub open spec fn spec_header_block_from(s: Seq<char>, i: int) -> Seq<char>
    decreases s.len() - i,
{
    if i < 0 || i >= s.len() || s[i] != '#' {
        Seq::empty()
    } else {
        let j = spec_line_end(s, i);
        if j < i {
            Seq::empty()
        } else {
            spec_trim_back(spec_trim_front(spec_drop_hashes(s.subrange(i, j)))) + "\n"@ + (
            if j + 1 <= s.len() {
                spec_header_block_from(s, j + 1)
            } else {
                Seq::empty()
            })
        }
    }
}

/// The header block of a script's text: everything after the first line,
/// read as consecutive `#` lines.
pub open spec fn spec_script_header_block(s: Seq<char>) -> Seq<char> {
    let j = spec_line_end(s, 0);
    if j + 1 <= s.len() {
        spec_header_block_from(s, j + 1)
    } else {
        Seq::empty()
    }
}

/// The first newline at or after `i` lies where the characters before it
/// are no newlines.
proof fn lemma_line_end_at(s: Seq<char>, i: int, m: int)
    requires
        0 <= i <= m <= s.len(),
        forall|k: int| i <= k < m ==> s[k] != '\n',
        m < s.len() ==> s[m] == '\n',
    ensures
        spec_line_end(s, i) == m,
    decreases m - i,
{
    if i < m {
        lemma_line_end_at(s, i + 1, m);
    }
}

/// The header block of a script's text: every line after the first that
/// starts with `#`, with its hash marks removed and its ends trimmed, each
/// on its own line, up to the first line that starts otherwise.
pub fn arwah_script_headers(content: &String) -> (r: String)
    ensures
        r@ == spec_script_header_block(content@),
{
    let s = content.as_str();
    proof {
        assert(s@ == content@);
    }
    let n = s.unicode_len();
    let mut out = String::new();
    let mut i: usize = 0;
    // skip the first line
    let mut newline = false;
    while i < n
        invariant_except_break
            i <= n,
            n == s@.len(),
            s@ == content@,
            !newline,
            forall|k: int| 0 <= k < i ==> s@[k] != '\n',
        ensures
            i <= n,
            n == s@.len(),
            s@ == content@,
            newline ==> 1 <= i && s@[i - 1] == '\n' && (forall|k: int|
                0 <= k < i - 1 ==> s@[k] != '\n'),
            !newline ==> i == n && (forall|k: int| 0 <= k < n ==> s@[k] != '\n'),
        decreases n - i,
    {
        let c = s.get_char(i);
        i += 1;
        if c == '\n' {
            newline = true;
            break ;
        }
    }
    proof {
        if newline {
            lemma_line_end_at(s@, 0, i - 1);
        } else {
            lemma_line_end_at(s@, 0, n as int);
        }
        assert(i as int == if spec_line_end(s@, 0) + 1 <= s@.len() {
            spec_line_end(s@, 0) + 1
        } else {
            s@.len() as int
        });
    }
    let ghost start = i as int;
    loop
        invariant
            start <= i <= n,
            n == s@.len(),
            s@ == content@,
            spec_script_header_block(content@) == out@ + spec_header_block_from(s@, i as int),
        ensures
            spec_script_header_block(content@) == out@ + spec_header_block_from(s@, i as int),
            i >= n || s@[i as int] != '#',
        decreases n - i,
    {
        if i >= n {
            break ;
        }
        if s.get_char(i) != '#' {
            break ;
        }
        let ghost line_start = i as int;
        // collect the line, dropping its hash marks
        let mut line = String::new();
        let mut line_newline = false;
        while i < n
            invariant_except_break
                0 <= line_start <= i <= n,
                n == s@.len(),
                s@ == content@,
                !line_newline,
                forall|k: int| line_start <= k < i ==> s@[k] != '\n',
                line@ == spec_drop_hashes(s@.subrange(line_start, i as int)),
            ensures
                0 <= line_start <= i <= n,
                n == s@.len(),
                s@ == content@,
                line_newline ==> line_start + 1 <= i && s@[i - 1] == '\n' && (forall|k: int|
                    line_start <= k < i - 1 ==> s@[k] != '\n') && line@ == spec_drop_hashes(
                    s@.subrange(line_start, i - 1),
                ),
                !line_newline ==> i == n && (forall|k: int|
                    line_start <= k < n ==> s@[k] != '\n') && line@ == spec_drop_hashes(
                    s@.subrange(line_start, n as int),
                ),
            decreases n - i,
        {
            let c = s.get_char(i);
            i += 1;
            if c == '\n' {
                line_newline = true;
                break ;
            }
            if c != '#' {
                crate::fmt_text::arwah_push_char(&mut line, c);
            }
            proof {
                let pre = s@.subrange(line_start, i - 1);
                let cur = s@.subrange(line_start, i as int);
                assert(cur.drop_last() =~= pre);
                assert(cur.last() == c);
            }
        }
        let ghost j = if line_newline {
            i - 1
        } else {
            n as int
        };
        proof {
            lemma_line_end_at(s@, line_start, j);
        }
        let trimmed = arwah_trim(&line);
        let ghost before = out@;
        out.append(trimmed.as_str());
        proof {
            reveal_strlit("\n");
        }
        out.append("\n");
        proof {
            assert(out@ == before + spec_trim_back(spec_trim_front(spec_drop_hashes(s@.subrange(
                line_start,
                j,
            )))) + "\n"@);
            assert(spec_header_block_from(s@, line_start) == spec_trim_back(spec_trim_front(
                spec_drop_hashes(s@.subrange(line_start, j)),
            )) + "\n"@ + (if j + 1 <= s@.len() {
                spec_header_block_from(s@, j + 1)
            } else {
                Seq::<char>::empty()
            }));
            if !line_newline {
                assert(i as int == n as int);
                assert(spec_header_block_from(s@, i as int) =~= Seq::<char>::empty());
            }
        }
    }
    proof {
        assert(spec_header_block_from(s@, i as int) =~= Seq::<char>::empty());
        assert(spec_script_header_block(content@) =~= out@);
    }
    out
}

/// A character the trimming removes from a line's ends.
pub open spec fn spec_is_blank(c: char) -> bool {
    c == ' ' || c == '\t' || c == '\r'
}

/// The text with its leading blanks removed.
pub open spec fn spec_trim_front(s: Seq<char>) -> Seq<char>
    decreases s.len(),
{
    if s.len() > 0 && spec_is_blank(s[0]) {
        spec_trim_front(s.drop_first())
    } else {
        s
    }
}

/// The text with its trailing blanks removed.
pub open spec fn spec_trim_back(s: Seq<char>) -> Seq<char>
    decreases s.len(),
{
    if s.len() > 0 && spec_is_blank(s.last()) {
        spec_trim_back(s.drop_last())
    } else {
        s
    }
}

/// The text with its leading and trailing blanks removed.
pub fn arwah_trim(line: &String) -> (r: String)
    ensures
        r@ == spec_trim_back(spec_trim_front(line@)),
{
    let s = line.as_str();
    proof {
        assert(s@ == line@);
    }
    let n = s.unicode_len();
    let mut from: usize = 0;
    proof {
        assert(s@.skip(0) =~= s@);
    }
    while from < n
        invariant
            from <= n,
            n == s@.len(),
            s@ == line@,
            spec_trim_front(line@) == spec_trim_front(s@.skip(from as int)),
        ensures
            spec_trim_front(line@) == spec_trim_front(s@.skip(from as int)),
            from < n ==> !spec_is_blank(s@[from as int]),
        decreases n - from,
    {
        proof {
            assert(s@.skip(from as int).drop_first() =~= s@.skip(from + 1));
            assert(s@.skip(from as int)[0] == s@[from as int]);
        }
        let c = s.get_char(from);
        if c != ' ' && c != '\t' && c != '\r' {
            break ;
        }
        from += 1;
    }
    proof {
        if from < n {
            assert(s@.skip(from as int)[0] == s@[from as int]);
        } else {
            assert(s@.skip(from as int).len() == 0);
        }
        assert(spec_trim_front(line@) == s@.skip(from as int));
    }
    let ghost middle = s@.skip(from as int);
    let mut to: usize = n;
    proof {
        assert(middle.take(middle.len() as int) =~= middle);
    }
    while to > from
        invariant
            from <= to <= n,
            n == s@.len(),
            s@ == line@,
            middle == s@.skip(from as int),
            spec_trim_back(middle) == spec_trim_back(middle.take(to - from)),
        ensures
            spec_trim_back(middle) == spec_trim_back(middle.take(to - from)),
            to > from ==> !spec_is_blank(s@[to - 1]),
        decreases to,
    {
        proof {
            assert(middle.take(to - from).drop_last() =~= middle.take(to - from - 1));
            assert(middle.take(to - from).last() == s@[to - 1]);
        }
        let c = s.get_char(to - 1);
        if c != ' ' && c != '\t' && c != '\r' {
            break ;
        }
        to -= 1;
    }
    proof {
        if to > from {
            assert(middle.take(to - from).last() == s@[to - 1]);
        } else {
            assert(middle.take(to - from).len() == 0);
        }
        assert(spec_trim_back(middle) == middle.take(to - from));
        assert(middle.take(to - from) =~= s@.subrange(from as int, to as int));
    }
    s.substring_char(from, to).to_owned()
}

/// What a parsed descriptor holds: the fields of the header block's TOML
/// value, with the script's path recorded on top.
pub open spec fn spec_script_file_ok(path: String, content: Seq<char>, f: ArwahScriptFile) -> bool {
    match spec_script_toml_of(spec_script_header_block(content)) {
        Some(parsed) => f == ArwahScriptFile { path: Some(path), ..parsed },
        None => false,
    }
}

/// Parses one script's text into its descriptor: the header block must be
/// a TOML table, and the script's path is recorded on the result.  A field
/// that holds a value of another type reads as unset; only a block that is
/// no TOML table at all rejects the script.
pub fn arwah_script_file_new(path: String, content: &String) -> (r: Option<ArwahScriptFile>)
    ensures
        r is Some <==> spec_script_toml_of(spec_script_header_block(content@)) is Some,
        r matches Some(f) ==> spec_script_file_ok(path, content@, f),
{
    let headers = arwah_script_headers(content);
    let strings = match arwah_script_toml_strings(headers.as_str()) {
        Some(h) => h,
        None => {
            return None;
        },
    };
    match arwah_script_toml_lists(headers.as_str()) {
        Some(lists) => Some(
            ArwahScriptFile {
                path: Some(path),
                tags: lists.0,
                developer: lists.1,
                port: strings.0,
                ports_separator: strings.1,
                call_format: strings.2,
            },
        ),
        None => None,
    }
}

/// The descriptors of a list of scripts, in input order: each input whose
/// header block parses contributes its descriptor under its path, and the
/// rest contribute nothing.
pub open spec fn spec_scripts_of(inputs: Seq<(String, String)>) -> Seq<ArwahScriptFile>
    decreases inputs.len(),
{
    if inputs.len() == 0 {
        Seq::empty()
    } else {
        let rest = spec_scripts_of(inputs.drop_first());
        match spec_script_toml_of(spec_script_header_block(inputs.first().1@)) {
            Some(parsed) => seq![ArwahScriptFile { path: Some(inputs.first().0), ..parsed }]
                + rest,
            None => rest,
        }
    }
}

/// Parses every script's text; scripts whose headers are no descriptor
/// contribute nothing, and the rest keep their input order.
pub fn arwah_parse_scripts(scripts: Vec<(String, String)>) -> (r: Vec<ArwahScriptFile>)
    ensures
        r@ == spec_scripts_of(scripts@),
{
    let mut out: Vec<ArwahScriptFile> = Vec::new();
    let mut scripts = scripts;
    let ghost all = scripts@;
    let ghost gi: int = 0;
    proof {
        assert(all.skip(0) =~= all);
    }
    while scripts.len() > 0
        invariant
            0 <= gi <= all.len(),
            scripts@ == all.skip(gi),
            spec_scripts_of(all) == out@ + spec_scripts_of(all.skip(gi)),
        decreases scripts@.len(),
    {
        proof {
            assert(all.skip(gi).drop_first() =~= all.skip(gi + 1));
            assert(all.skip(gi).first() == all[gi]);
            assert(scripts@.remove(0) =~= all.skip(gi + 1));
        }
        let (path, content) = scripts.remove(0);
        let ghost before = out@;
        if let Some(file) = arwah_script_file_new(path, &content) {
            out.push(file);
        }
        proof {
            gi = gi + 1;
            assert(spec_scripts_of(all) == out@ + spec_scripts_of(all.skip(gi))) by {
                match spec_script_toml_of(spec_script_header_block(all[gi - 1].1@)) {
                    Some(parsed) => {
                        assert(out@ =~= before + seq![
                            ArwahScriptFile { path: Some(all[gi - 1].0), ..parsed },
                        ]);
                    },
                    None => {
                    },
                }
            }
        }
    }
    proof {
        assert(all.skip(gi).len() == 0);
        assert(spec_scripts_of(all.skip(gi)) =~= Seq::<ArwahScriptFile>::empty());
    }
    out
}

/// Whether the approved tags hold the given tag text.
pub open spec fn spec_tag_listed(approved: Seq<String>, tag: Seq<char>) -> bool {
    exists|j: int| 0 <= j < approved.len() && (#[trigger] approved[j])@ == tag
}

/// Whether every tag of the script is among the approved tags.
pub open spec fn spec_tags_subset(script_tags: Seq<String>, approved: Seq<String>) -> bool {
    forall|k: int|
        0 <= k < script_tags.len() ==> spec_tag_listed(approved, (#[trigger] script_tags[k])@)
}

/// Whether the approved list holds the tag.
fn arwah_tag_listed(approved: &Vec<String>, tag: &String) -> (r: bool)
    ensures
        r == spec_tag_listed(approved@, tag@),
{
    let mut j: usize = 0;
    while j < approved.len()
        invariant
            j <= approved@.len(),
            forall|k: int| 0 <= k < j ==> (#[trigger] approved@[k])@ != tag@,
        decreases approved@.len() - j,
    {
        if approved[j].eq(tag) {
            proof {
                assert(approved@[j as int]@ == tag@);
            }
            return true;
        }
        j += 1;
    }
    proof {
        if spec_tag_listed(approved@, tag@) {
            let j = choose|j: int| 0 <= j < approved@.len() && (#[trigger] approved@[j])@ == tag@;
        }
    }
    false
}

/// Keeps the scripts whose declared tags all appear among the approved
/// tags; scripts without tags are dropped.
pub fn arwah_filter_scripts_by_tags(scripts: Vec<ArwahScriptFile>, approved: &Vec<String>) -> (r:
    Vec<ArwahScriptFile>)
    ensures
        forall|k: int|
            0 <= k < r@.len() ==> ((#[trigger] r@[k]).tags matches Some(tags) && spec_tags_subset(
                tags@,
                approved@,
            )),
{
    let mut out: Vec<ArwahScriptFile> = Vec::new();
    let mut scripts = scripts;
    while scripts.len() > 0
        invariant
            forall|k: int|
                0 <= k < out@.len() ==> ((#[trigger] out@[k]).tags matches Some(tags)
                    && spec_tags_subset(tags@, approved@)),
        decreases scripts@.len(),
    {
        let script = scripts.remove(0);
        let keep = match &script.tags {
            Some(tags) => {
                let mut all: bool = true;
                let mut k: usize = 0;
                while k < tags.len()
                    invariant
                        k <= tags@.len(),
                        all ==> (forall|x: int|
                            0 <= x < k ==> spec_tag_listed(approved@, (#[trigger] tags@[x])@)),
                    decreases tags@.len() - k,
                {
                    if !arwah_tag_listed(approved, &tags[k]) {
                        all = false;
                    }
                    k += 1;
                }
                proof {
                    if all {
                        assert(spec_tags_subset(tags@, approved@));
                    }
                }
                all
            },
            None => false,
        };
        if keep {
            let ghost before = out@;
            out.push(script);
            proof {
                assert forall|k: int|
                    0 <= k < out@.len() implies ((#[trigger] out@[k]).tags matches Some(tags)
                    && spec_tags_subset(tags@, approved@)) by {
                    if k < out@.len() - 1 {
                        assert(out@[k] == before[k]);
                    } else {
                        assert(out@[k] == script);
                    }
                }
            }
        }
    }
    out
}

/// What the template engine fills the four placeholders with; the filling
/// depends on the template and values alone.
pub uninterp spec fn spec_fill_of(
    template: Seq<char>,
    script: Seq<char>,
    ip: Seq<char>,
    port: Seq<char>,
    ipversion: Seq<char>,
) -> Option<Seq<char>>;

/// Relies on `text_placeholder::Template::fill_with_hashmap_strict` with
/// the four keys the runner provides: the filled text, or nothing where
/// the template names any other placeholder.
#[verifier::external_body]
fn arwah_fill_template(template: &str, script: &str, ip: &str, port: &str, ipversion: &str) -> (r:
    Option<String>)
    ensures
        match r {
            Some(s) => spec_fill_of(template@, script@, ip@, port@, ipversion@) == Some(s@),
            None => spec_fill_of(template@, script@, ip@, port@, ipversion@) is None,
        },
{
    let mut map = std::collections::HashMap::new();
    map.insert("script", script);
    map.insert("ip", ip);
    map.insert("port", port);
    map.insert("ipversion", ipversion);
    text_placeholder::Template::new(template).fill_with_hashmap_strict(&map).ok()
}

/// The joined port list: the open ports in order, separated.
pub open spec fn spec_join_ports(ports: Seq<u16>, sep: Seq<char>) -> Seq<char>
    decreases ports.len(),
{
    if ports.len() == 0 {
        Seq::empty()
    } else if ports.len() == 1 {
        crate::fmt_text::spec_decimal(ports[0] as int)
    } else {
        spec_join_ports(ports.drop_last(), sep) + sep + crate::fmt_text::spec_decimal(
            ports.last() as int,
        )
    }
}

pub fn arwah_join_ports(ports: &Vec<u16>, separator: &str) -> (r: String)
    ensures
        r@ == spec_join_ports(ports@, separator@),
{
    let mut out = String::new();
    let mut i: usize = 0;
    proof {
        assert(spec_join_ports(ports@.take(0), separator@) =~= Seq::<char>::empty());
    }
    while i < ports.len()
        invariant
            i <= ports@.len(),
            out@ == spec_join_ports(ports@.take(i as int), separator@),
        decreases ports@.len() - i,
    {
        if i > 0 {
            out.append(separator);
        }
        out.append(arwah_u64_text(ports[i] as u64).as_str());
        i += 1;
        proof {
            assert(ports@.take(i as int).drop_last() =~= ports@.take(i - 1));
            assert(ports@.take(i as int).last() == ports@[i - 1]);
            assert(out@ == spec_join_ports(ports@.take(i as int), separator@));
        }
    }
    proof {
        assert(ports@.take(ports@.len() as int) =~= ports@);
    }
    out
}

/// The bytes of a 32-bit address value, most significant first.
pub open spec fn spec_v4_bytes(x: u32) -> Seq<u8> {
    seq![
        (x / 0x1000000) as u8,
        (x / 0x10000) as u8,
        (x / 0x100) as u8,
        x as u8,
    ]
}

/// The bytes of a 128-bit address value, most significant first.
pub open spec fn spec_v6_bytes(x: u128) -> Seq<u8> {
    seq![
        (x / 0x1000000000000000000000000000000) as u8,
        (x / 0x10000000000000000000000000000) as u8,
        (x / 0x100000000000000000000000000) as u8,
        (x / 0x1000000000000000000000000) as u8,
        (x / 0x10000000000000000000000) as u8,
        (x / 0x100000000000000000000) as u8,
        (x / 0x1000000000000000000) as u8,
        (x / 0x10000000000000000) as u8,
        (x / 0x100000000000000) as u8,
        (x / 0x1000000000000) as u8,
        (x / 0x10000000000) as u8,
        (x / 0x100000000) as u8,
        (x / 0x1000000) as u8,
        (x / 0x10000) as u8,
        (x / 0x100) as u8,
        x as u8,
    ]
}

/// The address text the command carries: dotted decimal for the 32-bit
/// family, bracketed hexadecimal groups for the 128-bit one.
pub open spec fn spec_script_ip_text(ip: ArwahIpAddress) -> Seq<char> {
    match ip {
        ArwahIpAddress::V4(x) => crate::ip::spec_ipv4_text(spec_v4_bytes(x)),
        ArwahIpAddress::V6(x) => crate::ip::spec_ipv6_text(spec_v6_bytes(x)),
    }
}

/// The address-family text the command carries.
pub open spec fn spec_ip_version_text(ip: ArwahIpAddress) -> Seq<char> {
    match ip {
        ArwahIpAddress::V4(_) => "4"@,
        ArwahIpAddress::V6(_) => "6"@,
    }
}

impl ArwahScript {
    /// Bundles a script descriptor with one target host.
    pub fn arwah_build(
        path: Option<String>,
        ip: ArwahIpAddress,
        open_ports: Vec<u16>,
        trigger_port: Option<String>,
        ports_separator: Option<String>,
        tags: Option<Vec<String>>,
        call_format: Option<String>,
    ) -> (r: Self)
        ensures
            r.path == path,
            r.ip == ip,
            r.open_ports == open_ports,
            r.trigger_port == trigger_port,
            r.ports_separator == ports_separator,
            r.tags == tags,
            r.call_format == call_format,
    {
        ArwahScript { path, ip, open_ports, trigger_port, ports_separator, tags, call_format }
    }

    /// Assembles the command line the script runs with: the ports joined
    /// with the declared separator, or the trigger port verbatim; the
    /// mandatory template filled with the script path, address, ports and
    /// address family.  A missing template, or one naming any other
    /// placeholder, is an error.
    /// The placeholder values the command is filled with.
    pub open spec fn spec_command_ports_text(self) -> Seq<char> {
        match self.trigger_port {
            Some(t) => t@,
            None => spec_join_ports(
                self.open_ports@,
                match self.ports_separator {
                    Some(sep) => sep@,
                    None => ","@,
                },
            ),
        }
    }

    pub fn arwah_command(&self) -> (r: Result<String, ()>)
        requires
            (match self.call_format {
                Some(f) => spec_has_substring(f@, "{{script}}"@),
                None => false,
            }) ==> self.path is Some,
        ensures
            self.call_format is None ==> r is Err,
            self.call_format matches Some(f) ==> ({
                let script_text = if spec_has_substring(f@, "{{script}}"@) {
                    self.path->0@
                } else {
                    Seq::<char>::empty()
                };
                let fill = spec_fill_of(
                    f@,
                    script_text,
                    spec_script_ip_text(self.ip),
                    self.spec_command_ports_text(),
                    spec_ip_version_text(self.ip),
                );
                match r {
                    Ok(cmd) => fill == Some(cmd@),
                    Err(_) => fill is None,
                }
            }),
    {
        let call_format = match &self.call_format {
            Some(f) => f,
            None => {
                return Err(());
            },
        };
        let separator = match &self.ports_separator {
            Some(s) => s.clone(),
            None => ",".to_owned(),
        };
        let mut ports_str = arwah_join_ports(&self.open_ports, separator.as_str());
        if let Some(port) = &self.trigger_port {
            ports_str = port.clone();
        }
        let ip_text = match &self.ip {
            ArwahIpAddress::V4(x) => {
                let bytes: [u8; 4] = [
                    (*x / 0x1000000) as u8,
                    (*x / 0x10000) as u8,
                    (*x / 0x100) as u8,
                    *x as u8,
                ];
                proof {
                    assert(bytes@ =~= spec_v4_bytes(*x));
                }
                crate::ip::arwah_ipv4_text(&bytes)
            },
            ArwahIpAddress::V6(x) => arwah_ipv6_value_text(*x),
        };
        proof {
            assert(ip_text@ == spec_script_ip_text(self.ip));
        }
        let ipversion = match &self.ip {
            ArwahIpAddress::V4(_) => "4",
            ArwahIpAddress::V6(_) => "6",
        };
        proof {
            reveal_strlit("{{script}}");
        }
        let script_path = if arwah_contains_text(call_format, "{{script}}") {
            match &self.path {
                Some(p) => p.clone(),
                None => {
                    return Err(());
                },
            }
        } else {
            String::new()
        };
        match arwah_fill_template(
            call_format.as_str(),
            script_path.as_str(),
            ip_text.as_str(),
            ports_str.as_str(),
            ipversion,
        ) {
            Some(command) => Ok(command),
            None => Err(()),
        }
    }
}

/// Renders a 128-bit address value as hexadecimal groups.
fn arwah_ipv6_value_text(x: u128) -> (r: String)
    ensures
        r@ == crate::ip::spec_ipv6_text(spec_v6_bytes(x)),
{
    let bytes: [u8; 16] = [
        (x / 0x1000000000000000000000000000000) as u8,
        (x / 0x10000000000000000000000000000) as u8,
        (x / 0x100000000000000000000000000) as u8,
        (x / 0x1000000000000000000000000) as u8,
        (x / 0x10000000000000000000000) as u8,
        (x / 0x100000000000000000000) as u8,
        (x / 0x1000000000000000000) as u8,
        (x / 0x10000000000000000) as u8,
        (x / 0x100000000000000) as u8,
        (x / 0x1000000000000) as u8,
        (x / 0x10000000000) as u8,
        (x / 0x100000000) as u8,
        (x / 0x1000000) as u8,
        (x / 0x10000) as u8,
        (x / 0x100) as u8,
        x as u8,
    ];
    proof {
        assert(bytes@ =~= spec_v6_bytes(x));
    }
    let text = crate::ip::arwah_ipv6_text(&bytes);
    text
}

/// The built-in default script descriptor.
pub fn arwah_default_script_file() -> (r: ArwahScriptFile)
    ensures
        r.call_format is Some,
        r.tags is Some,
{
    let mut tags: Vec<String> = Vec::new();
    tags.push("core_approved".to_owned());
    tags.push("Arwah".to_owned());
    tags.push("default".to_owned());
    let mut developer: Vec<String> = Vec::new();
    developer.push("Arwah".to_owned());
    developer.push("".to_owned());
    ArwahScriptFile {
        path: None,
        tags: Some(tags),
        developer: Some(developer),
        port: None,
        ports_separator: Some(",".to_owned()),
        call_format: Some("nmap -vvv -p {{port}} -{{ipversion}} {{ip}}".to_owned()),
    }
}

/// The descriptors a scripts setting selects before any directory is
/// read: none when scripts are off, the built-in descriptor for the
/// default setting, and an empty set for the custom setting, which the
/// caller fills from its script directory.
pub fn arwah_builtin_scripts(setting: &ArwahScriptsRequired) -> (r: Vec<ArwahScriptFile>)
    ensures
        setting is Disabled ==> r@.len() == 0,
        setting is Default ==> r@.len() == 1 && r@[0].call_format is Some,
        setting is Custom ==> r@.len() == 0,
{
    let mut out: Vec<ArwahScriptFile> = Vec::new();
    if let ArwahScriptsRequired::Default = setting {
        out.push(arwah_default_script_file());
    }
    out
}

} // verus!
