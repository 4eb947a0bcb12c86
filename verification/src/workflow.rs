//! Checks on the input files that a ComfyUI workflow request uploads.
use vstd::prelude::*;

use crate::config::concat_str;
use crate::error::{is_error_of, EngineError, MessageKind, Result};
use crate::text::{is_ascii_alnum, is_blank, is_blank_seq};

verus! {

/// A file that a workflow request uploads next to its graph.
#[derive(Clone, Debug, PartialEq, Eq)]
pub struct WorkflowInputFile {
    pub filename: String,
    pub content_type: String,
    pub bytes: Vec<u8>,
}

/// The pieces of `s` between `/` characters, as `str::split('/')` yields them.
pub open spec fn split_on_slash(s: Seq<char>) -> Seq<Seq<char>>
    decreases s.len(),
{
    if s.len() == 0 {
        seq![Seq::<char>::empty()]
    } else {
        let rest = split_on_slash(s.drop_last());
        if s.last() == '/' {
            rest.push(Seq::<char>::empty())
        } else {
            rest.update(rest.len() - 1, rest.last().push(s.last()))
        }
    }
}

/// A character that a path component may hold.
pub open spec fn is_component_char(c: char) -> bool {
    is_ascii_alnum(c) || c == '.' || c == '_' || c == '-'
}

/// A non-empty component, not `.` or `..`, of safe characters only.
pub open spec fn is_safe_component(p: Seq<char>) -> bool {
    &&& p.len() > 0
    &&& p != "."@
    &&& p != ".."@
    &&& forall|k: int| 0 <= k < p.len() ==> is_component_char(#[trigger] p[k])
}

/// A relative path of at most 240 characters whose components are all safe.
/// (A safe name is ASCII, so its length in bytes and in characters agree.)
pub open spec fn is_safe_relative_name(s: Seq<char>) -> bool {
    &&& 0 < s.len() <= 240
    &&& s[0] != '/'
    &&& s[0] != '\\'
    &&& forall|k: int| 0 <= k < s.len() ==> #[trigger] s[k] != '\\'
    &&& forall|k: int|
        0 <= k < split_on_slash(s).len() ==> is_safe_component(#[trigger] split_on_slash(s)[k])
}

proof fn lemma_split_nonempty(s: Seq<char>)
    ensures
        split_on_slash(s).len() >= 1,
    decreases s.len(),
{
    if s.len() > 0 {
        lemma_split_nonempty(s.drop_last());
    }
}

/// Whether a workflow upload name is a safe relative path.
pub fn workflow_input_filename_is_safe(filename: &str) -> (r: bool)
    ensures
        r == is_safe_relative_name(filename@),
{
    let v = crate::text::chars_of(filename);
    let ghost s = filename@;
    // `ok`: every finished component is safe and the current one holds only
    // safe characters; `all_dots`: the current component is made of dots.
    let mut ok = true;
    let mut no_backslash = true;
    let mut cur_len: usize = 0;
    let mut all_dots = true;
    let mut n: usize = 0;
    while n < v.len()
        invariant
            v@ == s,
            n <= s.len(),
            split_on_slash(s.take(n as int)).len() >= 1,
            cur_len == split_on_slash(s.take(n as int)).last().len(),
            cur_len <= n,
            all_dots == (forall|k: int|
                0 <= k < cur_len ==> #[trigger] split_on_slash(s.take(n as int)).last()[k] == '.'),
            no_backslash == (forall|k: int| 0 <= k < n ==> #[trigger] s[k] != '\\'),
            ok == ((forall|k: int|
                0 <= k < split_on_slash(s.take(n as int)).len() - 1 ==> is_safe_component(
                    #[trigger] split_on_slash(s.take(n as int))[k],
                )) && (forall|k: int|
                0 <= k < cur_len ==> is_component_char(
                    #[trigger] split_on_slash(s.take(n as int)).last()[k],
                ))),
        decreases s.len() - n,
    {
        let c = v[n];
        let ghost before = split_on_slash(s.take(n as int));
        proof {
            reveal_strlit(".");
            reveal_strlit("..");
            assert(s.take(n + 1).drop_last() =~= s.take(n as int));
            assert(s.take(n + 1).last() == c);
        }
        let ghost after = split_on_slash(s.take(n + 1));
        if c == '\\' {
            no_backslash = false;
        }
        if c == '/' {
            let seg_ok = cur_len > 0 && !(all_dots && cur_len <= 2);
            proof {
                assert(after == before.push(Seq::<char>::empty()));
                let last = before.last();
                if cur_len > 0 && !(all_dots && cur_len <= 2) {
                    if all_dots {
                        assert(last.len() > 2);
                    } else {
                        let k = choose|k: int| 0 <= k < cur_len && last[k] != '.';
                        assert(last[k] != '.');
                    }
                    assert(last != "."@);
                    assert(last != ".."@);
                } else if cur_len > 0 {
                    assert(last[0] == '.');
                    if cur_len == 1 {
                        assert(last =~= "."@);
                    } else {
                        assert(last[1] == '.');
                        assert(last =~= ".."@);
                    }
                }
                if ok && seg_ok {
                    assert forall|k: int| 0 <= k < after.len() - 1 implies is_safe_component(
                        #[trigger] after[k],
                    ) by {
                        if k < before.len() - 1 {
                            assert(after[k] == before[k]);
                        } else {
                            assert(after[k] == last);
                        }
                    }
                } else if !seg_ok {
                    assert(after[before.len() - 1] == last);
                    assert(!is_safe_component(after[before.len() - 1]));
                } else {
                    if !(forall|k: int|
                        0 <= k < before.len() - 1 ==> is_safe_component(#[trigger] before[k])) {
                        let k = choose|k: int|
                            0 <= k < before.len() - 1 && !is_safe_component(#[trigger] before[k]);
                        assert(after[k] == before[k]);
                    } else {
                        let k = choose|k: int|
                            0 <= k < cur_len && !is_component_char(#[trigger] last[k]);
                        assert(after[before.len() - 1] == last);
                        assert(!is_safe_component(after[before.len() - 1]));
                    }
                }
            }
            ok = ok && seg_ok;
            cur_len = 0;
            all_dots = true;
        } else {
            let safe_char = is_component_char_exec(c);
            proof {
                let last = before.last();
                assert(after == before.update(before.len() - 1, last.push(c)));
                assert(after.last() == last.push(c));
                assert forall|k: int| 0 <= k < before.len() - 1 implies after[k] == before[k] by {}
                if ok && safe_char {
                    assert forall|k: int| 0 <= k < cur_len + 1 implies is_component_char(
                        #[trigger] after.last()[k],
                    ) by {
                        if k < cur_len {
                            assert(after.last()[k] == last[k]);
                        }
                    }
                }
                if !ok {
                    if !(forall|k: int|
                        0 <= k < before.len() - 1 ==> is_safe_component(#[trigger] before[k])) {
                        let k = choose|k: int|
                            0 <= k < before.len() - 1 && !is_safe_component(#[trigger] before[k]);
                        assert(after[k] == before[k]);
                    } else {
                        let k = choose|k: int|
                            0 <= k < cur_len && !is_component_char(#[trigger] last[k]);
                        assert(after.last()[k] == last[k]);
                    }
                }
                if all_dots && c == '.' {
                    assert forall|k: int| 0 <= k < cur_len + 1 implies #[trigger] after.last()[k]
                        == '.' by {
                        if k < cur_len {
                            assert(after.last()[k] == last[k]);
                        }
                    }
                }
                if !all_dots {
                    let k = choose|k: int| 0 <= k < cur_len && last[k] != '.';
                    assert(after.last()[k] == last[k]);
                } else if c != '.' {
                    assert(after.last()[cur_len as int] == c);
                }
                if ok && !safe_char {
                    assert(after.last()[cur_len as int] == c);
                }
            }
            ok = ok && safe_char;
            all_dots = all_dots && c == '.';
            cur_len = cur_len + 1;
        }
        n = n + 1;
    }
    proof {
        assert(s.take(n as int) =~= s);
    }
    let ghost fin = split_on_slash(s);
    let last_ok = cur_len > 0 && !(all_dots && cur_len <= 2);
    proof {
        reveal_strlit(".");
        reveal_strlit("..");
        let last = fin.last();
        if cur_len > 0 && !(all_dots && cur_len <= 2) {
            if all_dots {
                assert(last.len() > 2);
            } else {
                let k = choose|k: int| 0 <= k < cur_len && last[k] != '.';
                assert(last[k] != '.');
            }
            assert(last != "."@);
            assert(last != ".."@);
        } else if cur_len > 0 {
            assert(last[0] == '.');
            if cur_len == 1 {
                assert(last =~= "."@);
            } else {
                assert(last[1] == '.');
                assert(last =~= ".."@);
            }
        }
    }
    if n == 0 || n > 240 {
        return false;
    }
    let first = v[0];
    if first == '/' || first == '\\' || !no_backslash {
        return false;
    }
    proof {
        if ok && last_ok {
            assert forall|k: int| 0 <= k < fin.len() implies is_safe_component(
                #[trigger] fin[k],
            ) by {
                if k == fin.len() - 1 {
                    assert(fin[k] == fin.last());
                }
            }
        } else if !last_ok {
            assert(!is_safe_component(fin[fin.len() - 1]));
        } else {
            if !(forall|k: int| 0 <= k < fin.len() - 1 ==> is_safe_component(#[trigger] fin[k])) {
                let k = choose|k: int| 0 <= k < fin.len() - 1 && !is_safe_component(#[trigger] fin[k]);
                assert(!is_safe_component(fin[k]));
            } else {
                assert(!is_safe_component(fin[fin.len() - 1]));
            }
        }
    }
    ok && last_ok
}

/// Whether one character may stand in a path component.
pub fn is_component_char_exec(c: char) -> (r: bool)
    ensures
        r == is_component_char(c),
{
    ('a' <= c && c <= 'z') || ('A' <= c && c <= 'Z') || ('0' <= c && c <= '9') || c == '.' || c
        == '_' || c == '-'
}

/// The first check that an upload fails, with its message.
pub open spec fn input_file_error(filename: Seq<char>, content_type: Seq<char>, byte_len: nat) -> Option<
    Seq<char>,
> {
    if byte_len == 0 {
        Some("workflow input file "@ + filename + " is empty"@)
    } else if !is_safe_relative_name(filename) {
        Some("workflow input file "@ + filename + " is not a safe relative path"@)
    } else if is_blank_seq(content_type) {
        Some("workflow input file "@ + filename + " is missing content_type"@)
    } else {
        None
    }
}

/// Checks an upload: it has bytes, a safe relative name and a content type.
pub fn validate_workflow_input_file(file: &WorkflowInputFile) -> (r: Result<()>)
    ensures
        match input_file_error(file.filename@, file.content_type@, file.bytes@.len()) {
            Some(text) => is_error_of(r, MessageKind::Request, text),
            None => r is Ok,
        },
{
    if file.bytes.len() == 0 {
        let m = concat_str("workflow input file ", file.filename.as_str());
        return Err(EngineError::InvalidRequest(concat_str(m.as_str(), " is empty")));
    }
    if !workflow_input_filename_is_safe(file.filename.as_str()) {
        let m = concat_str("workflow input file ", file.filename.as_str());
        return Err(
            EngineError::InvalidRequest(concat_str(m.as_str(), " is not a safe relative path")),
        );
    }
    if is_blank(file.content_type.as_str()) {
        let m = concat_str("workflow input file ", file.filename.as_str());
        return Err(
            EngineError::InvalidRequest(concat_str(m.as_str(), " is missing content_type")),
        );
    }
    Ok(())
}

} // verus!

verus! {

/// Default time a workflow may run, in milliseconds.
pub fn default_workflow_timeout_ms() -> (r: u64)
    ensures
        r == 300_000,
{
    300_000
}

/// A ComfyUI graph to run, with the files it uploads.
#[derive(Debug)]
pub struct WorkflowGenerationRequest {
    pub workflow: crate::json::JsonValue,
    pub input_files: Vec<WorkflowInputFile>,
    pub client_id: Option<String>,
    pub timeout_ms: u64,
}

/// The first check a workflow request fails, with its message.
pub open spec fn workflow_request_error(r: WorkflowGenerationRequest) -> Option<Seq<char>> {
    if !(r.workflow is Object) {
        Some("workflow request must contain a ComfyUI graph object"@)
    } else if r.timeout_ms == 0 {
        Some("workflow timeout_ms must be greater than zero"@)
    } else {
        first_file_error(r.input_files@)
    }
}

/// The error of the first upload that fails its checks.
pub open spec fn first_file_error(files: Seq<WorkflowInputFile>) -> Option<Seq<char>>
    decreases files.len(),
{
    if files.len() == 0 {
        None
    } else {
        match input_file_error(files[0].filename@, files[0].content_type@, files[0].bytes@.len()) {
            Some(t) => Some(t),
            None => first_file_error(files.drop_first()),
        }
    }
}

impl WorkflowGenerationRequest {
    /// A request for `workflow` with no uploads and the default timeout.
    pub fn new(workflow: crate::json::JsonValue) -> (r: Self)
        ensures
            r.workflow == workflow,
            r.input_files@.len() == 0,
            r.client_id is None,
            r.timeout_ms == 300_000,
    {
        WorkflowGenerationRequest {
            workflow,
            input_files: Vec::new(),
            client_id: None,
            timeout_ms: default_workflow_timeout_ms(),
        }
    }

    pub fn validate(&self) -> (r: Result<()>)
        ensures
            match workflow_request_error(*self) {
                Some(text) => is_error_of(r, MessageKind::Request, text),
                None => r is Ok,
            },
    {
        if !self.workflow.is_object() {
            return Err(
                EngineError::InvalidRequest(
                    "workflow request must contain a ComfyUI graph object".to_owned(),
                ),
            );
        }
        if self.timeout_ms == 0 {
            return Err(
                EngineError::InvalidRequest("workflow timeout_ms must be greater than zero".to_owned()),
            );
        }
        let mut i: usize = 0;
        let ghost files = self.input_files@;
        assert(files.skip(0) =~= files);
        while i < self.input_files.len()
            invariant
                i <= files.len(),
                files == self.input_files@,
                self.workflow is Object,
                self.timeout_ms != 0,
                first_file_error(files) == first_file_error(files.skip(i as int)),
            decreases files.len() - i,
        {
            proof {
                assert(files.skip(i as int).drop_first() =~= files.skip(i + 1));
                assert(files.skip(i as int)[0] == files[i as int]);
            }
            validate_workflow_input_file(&self.input_files[i])?;
            i = i + 1;
        }
        Ok(())
    }
}


/// The first upload that fails its checks is `files[i]`, with error `t`.
proof fn lemma_first_file_error_is_first(files: Seq<WorkflowInputFile>)
    ensures
        first_file_error(files) is None <==> forall|i: int|
            0 <= i < files.len() ==> (#[trigger] input_file_error(
                files[i].filename@,
                files[i].content_type@,
                files[i].bytes@.len(),
            )) is None,
        first_file_error(files) matches Some(t) ==> exists|i: int|
            0 <= i < files.len() && input_file_error(
                files[i].filename@,
                files[i].content_type@,
                files[i].bytes@.len(),
            ) == Some(t) && forall|j: int|
                0 <= j < i ==> (#[trigger] input_file_error(
                    files[j].filename@,
                    files[j].content_type@,
                    files[j].bytes@.len(),
                )) is None,
    decreases files.len(),
{
    if files.len() > 0 {
        let rest = files.drop_first();
        lemma_first_file_error_is_first(rest);
        assert forall|i: int| 0 < i < files.len() implies files[i] == rest[i - 1] by {}
        if first_file_error(files) is None {
            assert forall|i: int| 0 <= i < files.len() implies (#[trigger] input_file_error(
                files[i].filename@,
                files[i].content_type@,
                files[i].bytes@.len(),
            )) is None by {
                if i > 0 {
                    assert(files[i] == rest[i - 1]);
                }
            }
        } else if input_file_error(files[0].filename@, files[0].content_type@, files[0].bytes@.len()) is None {
            let t = first_file_error(files)->0;
            let i = choose|i: int|
                0 <= i < rest.len() && input_file_error(
                    rest[i].filename@,
                    rest[i].content_type@,
                    rest[i].bytes@.len(),
                ) == Some(t) && forall|j: int|
                    0 <= j < i ==> (#[trigger] input_file_error(
                        rest[j].filename@,
                        rest[j].content_type@,
                        rest[j].bytes@.len(),
                    )) is None;
            assert(files[i + 1] == rest[i]);
            assert forall|j: int| 0 <= j < i + 1 implies (#[trigger] input_file_error(
                files[j].filename@,
                files[j].content_type@,
                files[j].bytes@.len(),
            )) is None by {
                if j > 0 {
                    assert(files[j] == rest[j - 1]);
                }
            }
        } else {
            assert(forall|j: int| 0 <= j < 0 ==> (#[trigger] input_file_error(
                files[j].filename@,
                files[j].content_type@,
                files[j].bytes@.len(),
            )) is None);
        }
    }
}

/// Law: a workflow request passes its checks exactly when its workflow is a
/// JSON object, its timeout is positive and every upload passes its own
/// checks; when it is refused for its uploads, the message is that of the
/// first upload that fails, all uploads before it passing.
pub proof fn lemma_workflow_checks_are_the_fields(r: WorkflowGenerationRequest)
    ensures
        workflow_request_error(r) is None <==> {
            &&& r.workflow is Object
            &&& r.timeout_ms > 0
            &&& forall|i: int|
                0 <= i < r.input_files@.len() ==> (#[trigger] input_file_error(
                    r.input_files@[i].filename@,
                    r.input_files@[i].content_type@,
                    r.input_files@[i].bytes@.len(),
                )) is None
        },
        r.workflow is Object && r.timeout_ms > 0 ==> (workflow_request_error(r) matches Some(t)
            ==> exists|i: int|
            0 <= i < r.input_files@.len() && input_file_error(
                r.input_files@[i].filename@,
                r.input_files@[i].content_type@,
                r.input_files@[i].bytes@.len(),
            ) == Some(t) && forall|j: int|
                0 <= j < i ==> (#[trigger] input_file_error(
                    r.input_files@[j].filename@,
                    r.input_files@[j].content_type@,
                    r.input_files@[j].bytes@.len(),
                )) is None),
{
    lemma_first_file_error_is_first(r.input_files@);
}

} // verus!
