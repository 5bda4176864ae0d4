//! The request and response shapes the surrounding system exchanges with
//! this core, and the validation of model names before one ever reaches a
//! command line or a request body.

use crate::errors::ModelNameError;
use crate::transcript::lines_seq;
use vstd::prelude::*;
use vstd::string::StringSliceAdditionalSpecFns;

verus! {

#[derive(Debug, Clone)]
pub struct Message {
    pub role: String,
    pub content: String,
}

#[derive(Debug, Clone)]
pub struct ChatRequest {
    pub model: String,
    pub messages: Vec<Message>,
    pub stream: bool,
}

#[derive(Debug, Clone)]
pub struct ChatResponse {
    pub model: String,
    pub created_at: String,
    pub message: Option<Message>,
    pub done: bool,
}

#[derive(Debug)]
pub struct PullModelRequest {
    pub name: String,
}

#[derive(Debug)]
pub struct DeleteModelRequest {
    pub name: String,
}

#[derive(Debug)]
pub struct ShowModelRequest {
    pub name: String,
}

#[derive(Debug, Clone)]
pub struct ModelDetails {
    pub parent_model: Option<String>,
    pub format: String,
    pub family: String,
    pub families: Option<Vec<String>>,
    pub parameter_size: String,
    pub quantization_level: String,
}

#[derive(Debug)]
pub struct ShowModelResponse {
    pub model: String,
    pub license: String,
    pub modelfile: String,
    pub parameters: Vec<String>,
    pub template: String,
    pub details: ModelDetails,
}

#[derive(Debug)]
pub struct ListModelEntry {
    pub name: String,
    pub modified_at: String,
    pub size: u64,
    pub digest: String,
    pub details: ModelDetails,
}

#[derive(Debug)]
pub struct ListModelsResponse {
    pub models: Vec<ListModelEntry>,
}

#[derive(Debug)]
pub struct ConfigResponse {
    pub ollama_url: String,
}

#[derive(Debug)]
pub struct HfModel {
    pub model_id: String,
    pub pipeline_tag: Option<String>,
    pub downloads: Option<u64>,
    pub last_modified: Option<String>,
}

// ---------------------------------------------------------------------------
// Model-name validation
// ---------------------------------------------------------------------------

/// Whether the character counts as alphanumeric under Unicode.
pub uninterp spec fn unicode_alphanumeric(c: char) -> bool;

/// Relies on `char::is_alphanumeric`: membership of the character in the
/// Unicode letter or number categories, a function of the character alone.
#[verifier::external_body]
fn char_is_alphanumeric(c: char) -> (r: bool)
    ensures
        r == unicode_alphanumeric(c),
{
    c.is_alphanumeric()
}

/// Whether the character counts as whitespace under Unicode.
pub uninterp spec fn unicode_whitespace(c: char) -> bool;

/// Relies on `char::is_whitespace`: membership of the character in the
/// Unicode whitespace set, a function of the character alone.
#[verifier::external_body]
fn char_is_whitespace(c: char) -> (r: bool)
    ensures
        r == unicode_whitespace(c),
{
    c.is_whitespace()
}

/// A character a model name may hold: alphanumeric, hyphens and
/// underscores, colons for tags, dots for versions, slashes for
/// namespaces.
pub open spec fn allowed_name_char(c: char) -> bool {
    unicode_alphanumeric(c) || c == '-' || c == '_' || c == ':' || c == '.' || c == '/'
}

/// A valid model name: non-empty, at most 200 bytes, no whitespace at
/// either end, and every character allowed.
pub open spec fn valid_model_name(s: &str) -> bool {
    &&& s@.len() > 0
    &&& s.spec_bytes().len() <= 200
    &&& !unicode_whitespace(s@[0])
    &&& !unicode_whitespace(s@[s@.len() - 1])
    &&& forall|i: int| 0 <= i < s@.len() ==> allowed_name_char(#[trigger] s@[i])
}

/// Reject a model name before it reaches a command line or a request
/// body. Each error names the first rule the name breaks, checked in
/// order: emptiness, byte length, edge whitespace, character set.
pub fn validate_model_name(name: &str) -> (r: Result<(), ModelNameError>)
    ensures
        r is Ok <==> valid_model_name(name),
        r == Err::<(), ModelNameError>(ModelNameError::Empty) <==> name@.len() == 0,
        r == Err::<(), ModelNameError>(ModelNameError::TooLong) <==> name@.len() > 0 && name.spec_bytes().len() > 200,
        r == Err::<(), ModelNameError>(ModelNameError::EdgeWhitespace) <==> (name@.len() > 0 && name.spec_bytes().len()
            <= 200 && (unicode_whitespace(name@[0]) || unicode_whitespace(
            name@[name@.len() - 1],
        ))),
        r == Err::<(), ModelNameError>(ModelNameError::InvalidChar) <==> (name@.len() > 0 && name.spec_bytes().len()
            <= 200 && !unicode_whitespace(name@[0]) && !unicode_whitespace(name@[name@.len() - 1])
            && exists|i: int| 0 <= i < name@.len() && !allowed_name_char(#[trigger] name@[i])),
{
    if name.is_empty() {
        return Err(ModelNameError::Empty);
    }
    let bytes = name.as_bytes();
    proof {
        vstd::slice::axiom_spec_len(bytes);
    }
    if bytes.len() > 200 {
        return Err(ModelNameError::TooLong);
    }
    let n = name.unicode_len();
    if char_is_whitespace(name.get_char(0)) || char_is_whitespace(name.get_char(n - 1)) {
        return Err(ModelNameError::EdgeWhitespace);
    }
    let mut i: usize = 0;
    while i < n
        invariant
            i <= n == name@.len(),
            name@.len() > 0,
            name.spec_bytes().len() <= 200,
            !unicode_whitespace(name@[0]),
            !unicode_whitespace(name@[name@.len() - 1]),
            forall|j: int| 0 <= j < i ==> allowed_name_char(#[trigger] name@[j]),
        decreases n - i,
    {
        let c = name.get_char(i);
        let ok = char_is_alphanumeric(c) || c == '-' || c == '_' || c == ':' || c == '.' || c
            == '/';
        if !ok {
            proof {
                assert(!allowed_name_char(name@[i as int]));
            }
            return Err(ModelNameError::InvalidChar);
        }
        i += 1;
    }
    Ok(())
}

// ---------------------------------------------------------------------------
// The pull operation's status string
// ---------------------------------------------------------------------------

/// A transcript joined into one text, each line followed by a newline.
pub open spec fn joined_lines(lines: Seq<Seq<char>>) -> Seq<char>
    decreases lines.len(),
{
    if lines.len() == 0 {
        Seq::empty()
    } else {
        joined_lines(lines.drop_last()) + lines.last() + seq!['\n']
    }
}

pub fn join_transcript(lines: &Vec<String>) -> (r: String)
    ensures
        r@ == joined_lines(lines_seq(lines@)),
{
    let mut out = String::new();
    let mut i: usize = 0;
    proof {
        assert(lines_seq(lines@).subrange(0, 0) =~= Seq::<Seq<char>>::empty());
    }
    while i < lines.len()
        invariant
            i <= lines@.len(),
            out@ == joined_lines(lines_seq(lines@).subrange(0, i as int)),
        decreases lines@.len() - i,
    {
        out.append(lines[i].as_str());
        out.append("\n");
        proof {
            reveal_strlit("\n");
            assert(("\n")@ =~= seq!['\n']);
            let all = lines_seq(lines@);
            let p = all.subrange(0, i + 1);
            assert(p.drop_last() =~= all.subrange(0, i as int));
            assert(p.last() == lines@[i as int]@);
        }
        i += 1;
    }
    proof {
        assert(lines_seq(lines@).subrange(0, lines@.len() as int) =~= lines_seq(lines@));
    }
    out
}

/// The status string of a successful pull.
pub open spec fn spec_pull_success_message(model: Seq<char>, lines: Seq<Seq<char>>) -> Seq<char> {
    ("Model ")@ + model + (" pulled successfully.\n")@ + joined_lines(lines)
}

pub fn pull_success_message(model_name: &str, transcript: &Vec<String>) -> (r: String)
    ensures
        r@ == spec_pull_success_message(model_name@, lines_seq(transcript@)),
{
    let mut out = String::from_str("Model ");
    out.append(model_name);
    out.append(" pulled successfully.\n");
    let joined = join_transcript(transcript);
    out.append(joined.as_str());
    out
}

} // verus!
