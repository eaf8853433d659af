//! What the problem store's commands decide around the store itself.

use vstd::prelude::*;
use vstd::string::StringExecFns;
use crate::encoding::{json_strings, parse_json_strings};
use crate::import::comma_list;
use crate::models::{
    optional_text, CreateProblemRequest, ImportError, ImportErrorView, ImportResult, ImportResultView, ParsedProblem,
    Tag,
};
use crate::path_resolver::{join_path, joined_path};
use crate::text::{
    begins_at, chars_of, clone_strings, contains_chars, contains_text, decimal, extend_chars, has_prefix,
    lowercase_of, occurs_in, prefixed, push_decimal, same_text, starts_with, string_between, string_of, texts,
    to_lowercase,
};

verus! {

/// The strings that a stored list stands for. An empty text and `null`
/// stand for no strings. A JSON array of strings stands for its strings.
/// Any other text in square brackets stands for none; text without them
/// is read as items between commas.
pub open spec fn stored_strings(json: Seq<char>) -> Seq<Seq<char>> {
    if json.len() == 0 || json == "null"@ {
        Seq::empty()
    } else {
        match json_strings(json) {
            Some(items) => items,
            None => if json.first() == '[' && json.last() == ']' {
                Seq::empty()
            } else {
                comma_list(json)
            },
        }
    }
}

/// The strings that a stored list stands for, given what reading it as
/// JSON gave.
pub fn strings_or_fallback(json: &str, read: Option<Vec<String>>) -> (list: Vec<String>)
    ensures
        texts(list@) == if json@.len() == 0 || json@ == "null"@ {
            Seq::<Seq<char>>::empty()
        } else {
            match read {
                Some(items) => texts(items@),
                None => if json@.first() == '[' && json@.last() == ']' {
                    Seq::<Seq<char>>::empty()
                } else {
                    comma_list(json@)
                },
            }
        },
{
    let chars = chars_of(json);
    if chars.len() == 0 || same_text(json, "null") {
        let list: Vec<String> = Vec::new();
        assert(texts(list@) =~= Seq::<Seq<char>>::empty());
        return list;
    }
    match read {
        Some(items) => items,
        None => {
            if chars[0] == '[' && chars[chars.len() - 1] == ']' {
                let list: Vec<String> = Vec::new();
                assert(texts(list@) =~= Seq::<Seq<char>>::empty());
                list
            } else {
                crate::import::parse_comma_list(json)
            }
        },
    }
}

/// The strings that a stored list stands for.
pub fn parse_json_array(json_str: &str) -> (list: Vec<String>)
    ensures
        texts(list@) == stored_strings(json_str@),
{
    let read = match parse_json_strings(json_str) {
        Ok(items) => Some(items),
        Err(_) => None,
    };
    strings_or_fallback(json_str, read)
}

/// Whether a tag with the identifier `id` is among `tags`.
pub open spec fn has_tag(tags: Seq<Tag>, id: Seq<char>) -> bool {
    exists|i: int| 0 <= i < tags.len() && (#[trigger] tags[i]).id@ == id
}

/// Adds a tag to the tags gathered so far unless one with its identifier
/// is among them already.
pub fn push_unique_tag(added: &mut Vec<Tag>, tag: Tag)
    ensures
        final(added)@ == if has_tag(old(added)@, tag.id@) {
            old(added)@
        } else {
            old(added)@.push(tag)
        },
{
    let mut i: usize = 0;
    while i < added.len()
        invariant
            i <= added.len(),
            added@ == old(added)@,
            forall|j: int| 0 <= j < i ==> (#[trigger] added@[j]).id@ != tag.id@,
        decreases added.len() - i,
    {
        if same_text(added[i].id.as_str(), tag.id.as_str()) {
            assert(has_tag(added@, tag.id@));
            return;
        }
        i = i + 1;
    }
    added.push(tag);
}

/// What suggestions are asked for.
#[derive(Clone, Copy, Debug, PartialEq, Eq, Structural)]
pub enum SearchKind {
    Name,
    Topic,
    Tags,
}

/// The kind of search that a word names, if it names one.
pub open spec fn kind_named(word: Seq<char>) -> Option<SearchKind> {
    if word == "name"@ {
        Some(SearchKind::Name)
    } else if word == "topic"@ {
        Some(SearchKind::Topic)
    } else if word == "tags"@ {
        Some(SearchKind::Tags)
    } else {
        None
    }
}

/// The kind of search that a request names, or the refusal of a name that
/// is none of `name`, `topic` and `tags`.
pub fn search_kind(search_type: &str) -> (r: Result<SearchKind, String>)
    ensures
        match kind_named(search_type@) {
            Some(kind) => r == Ok::<SearchKind, String>(kind),
            None => r is Err && r->Err_0@ == "Invalid search type"@,
        },
{
    if same_text(search_type, "name") {
        Ok(SearchKind::Name)
    } else if same_text(search_type, "topic") {
        Ok(SearchKind::Topic)
    } else if same_text(search_type, "tags") {
        Ok(SearchKind::Tags)
    } else {
        Err(String::from_str("Invalid search type"))
    }
}

/// The message for a store that answered and holds `count` problems.
pub fn connected_message(count: usize) -> (message: String)
    ensures
        message@ == "Connected to database successfully. Found "@ + decimal(count as nat) + " problems."@,
{
    let mut chars = chars_of("Connected to database successfully. Found ");
    push_decimal(count as u64, &mut chars);
    extend_chars(&mut chars, &chars_of(" problems."));
    string_of(&chars)
}

/// The request that creates a problem read from text. The tags of the
/// text have become topics while reading; nothing relates the new problem
/// to others.
pub fn create_request(problem: &ParsedProblem) -> (request: CreateProblemRequest)
    ensures
        request.title@ == problem.title@,
        request.description@ == problem.description@,
        request.difficulty@ == problem.difficulty@,
        texts(request.topic@) == texts(problem.topics@),
        optional_text(request.leetcode_url) == optional_text(problem.leetcode_url),
        texts(request.constraints@) == texts(problem.constraints@),
        texts(request.hints@) == texts(problem.hints@),
        request.related_problem_ids is None,
{
    CreateProblemRequest {
        title: problem.title.clone(),
        description: problem.description.clone(),
        difficulty: problem.difficulty.clone(),
        topic: clone_strings(&problem.topics),
        leetcode_url: match &problem.leetcode_url {
            Some(url) => Some(url.clone()),
            None => None,
        },
        constraints: clone_strings(&problem.constraints),
        hints: clone_strings(&problem.hints),
        related_problem_ids: None,
    }
}

/// What the store said when asked whether a problem with a given title is
/// there already.
#[derive(Debug)]
pub enum DuplicateCheck {
    Exists,
    Missing,
    Failed(String),
}

/// The entry for something that went wrong with the problem at `line`.
pub open spec fn import_error(line: i32, field: Option<Seq<char>>, message: Seq<char>) -> ImportErrorView {
    ImportErrorView { line, field, message, severity: "error"@ }
}

/// The outcome of an import before its first problem.
pub open spec fn fresh_import() -> ImportResultView {
    ImportResultView {
        success: true,
        imported_count: 0,
        skipped_count: 0,
        error_count: 0,
        duplicates: Seq::empty(),
        errors: Seq::empty(),
    }
}

/// The outcome of an import before its first problem.
pub fn new_import_result() -> (result: ImportResult)
    ensures
        result@ == fresh_import(),
{
    let result = ImportResult {
        success: true,
        imported_count: 0,
        skipped_count: 0,
        error_count: 0,
        duplicates: Vec::new(),
        errors: Vec::new(),
    };
    assert(result@.duplicates =~= Seq::<Seq<char>>::empty());
    assert(result@.errors =~= Seq::<ImportErrorView>::empty());
    result
}

/// The outcome of an import whose text was refused for `reason`: nothing
/// imported, and one entry that belongs to no problem.
pub fn refused_import(reason: &str) -> (result: ImportResult)
    ensures
        result@ == (ImportResultView {
            success: false,
            errors: seq![import_error(0, None, "Failed to parse TXT content: "@ + reason@)],
            ..fresh_import()
        }),
{
    let mut errors: Vec<ImportError> = Vec::new();
    errors.push(
        ImportError {
            line: 0,
            field: None,
            message: prefixed("Failed to parse TXT content: ", reason),
            severity: String::from_str("error"),
        },
    );
    let result = ImportResult {
        success: false,
        imported_count: 0,
        skipped_count: 0,
        error_count: 0,
        duplicates: Vec::new(),
        errors,
    };
    assert(result@.duplicates =~= Seq::<Seq<char>>::empty());
    assert(result@.errors =~= seq![import_error(0, None, "Failed to parse TXT content: "@ + reason@)]);
    result
}

/// The outcome after the store has been asked whether the problem at
/// `line` is there already. A problem that is there is skipped and its
/// title noted; a failed check is an error of the title; a missing problem
/// changes nothing.
pub open spec fn after_duplicate_check(
    result: ImportResultView,
    line: i32,
    title: Seq<char>,
    exists: bool,
    failure: Option<Seq<char>>,
) -> ImportResultView {
    match failure {
        Some(e) => ImportResultView {
            error_count: (result.error_count + 1) as i32,
            errors: result.errors.push(
                import_error(line, Some("title"@), "Failed to check for duplicate: "@ + e),
            ),
            ..result
        },
        None => if exists {
            ImportResultView {
                skipped_count: (result.skipped_count + 1) as i32,
                duplicates: result.duplicates.push(title),
                ..result
            }
        } else {
            result
        },
    }
}

/// Notes what the store said when asked whether the problem at
/// `line_number` is there already, and says whether the problem is to be
/// created.
pub fn record_duplicate_check(result: &mut ImportResult, line_number: i32, title: &str, check: DuplicateCheck) -> (create:
    bool)
    requires
        old(result).skipped_count < i32::MAX,
        old(result).error_count < i32::MAX,
    ensures
        create == (check is Missing),
        final(result)@ == after_duplicate_check(
            old(result)@,
            line_number,
            title@,
            check is Exists,
            match check {
                DuplicateCheck::Failed(e) => Some(e@),
                _ => None,
            },
        ),
{
    match check {
        DuplicateCheck::Exists => {
            let ghost before = result.duplicates@;
            result.skipped_count = result.skipped_count + 1;
            let noted = String::from_str(title);
            result.duplicates.push(noted);
            assert(texts(result.duplicates@) =~= texts(before).push(title@));
            false
        },
        DuplicateCheck::Missing => true,
        DuplicateCheck::Failed(e) => {
            let ghost before = result.errors@;
            result.error_count = result.error_count + 1;
            let entry = ImportError {
                line: line_number,
                field: Some(String::from_str("title")),
                message: prefixed("Failed to check for duplicate: ", e.as_str()),
                severity: String::from_str("error"),
            };
            result.errors.push(entry);
            assert(result@.errors =~= old(result)@.errors.push(entry@));
            false
        },
    }
}

/// The outcome after the store has been asked to create the problem at
/// `line`.
pub open spec fn after_creation(result: ImportResultView, line: i32, failure: Option<Seq<char>>) -> ImportResultView {
    match failure {
        Some(e) => ImportResultView {
            error_count: (result.error_count + 1) as i32,
            errors: result.errors.push(import_error(line, None, "Failed to create problem: "@ + e)),
            ..result
        },
        None => ImportResultView { imported_count: (result.imported_count + 1) as i32, ..result },
    }
}

/// Notes whether the problem at `line_number` has been created.
pub fn record_creation(result: &mut ImportResult, line_number: i32, outcome: Result<(), String>)
    requires
        old(result).imported_count < i32::MAX,
        old(result).error_count < i32::MAX,
    ensures
        final(result)@ == after_creation(
            old(result)@,
            line_number,
            match outcome {
                Ok(_) => None,
                Err(e) => Some(e@),
            },
        ),
{
    match outcome {
        Ok(_) => {
            result.imported_count = result.imported_count + 1;
        },
        Err(e) => {
            result.error_count = result.error_count + 1;
            let entry = ImportError {
                line: line_number,
                field: None,
                message: prefixed("Failed to create problem: ", e.as_str()),
                severity: String::from_str("error"),
            };
            result.errors.push(entry);
            assert(result@.errors =~= old(result)@.errors.push(entry@));
        },
    }
}

/// Closes an import: it has succeeded if nothing went wrong with any
/// problem.
pub fn finish_import(result: &mut ImportResult)
    ensures
        final(result)@ == (ImportResultView { success: old(result).error_count == 0, ..old(result)@ }),
{
    result.success = result.error_count == 0;
}

/// The identifiers related to a problem without those equal to `id`.
pub open spec fn without_relation(related: Seq<Seq<char>>, id: Seq<char>) -> Seq<Seq<char>>
    decreases related.len(),
{
    if related.len() == 0 {
        Seq::empty()
    } else if related.last() == id {
        without_relation(related.drop_last(), id)
    } else {
        without_relation(related.drop_last(), id).push(related.last())
    }
}

/// The identifiers to store for a problem once `new_related_id` is related
/// to it, or `None` where it is related already and nothing is to be
/// stored.
pub fn add_relation(related: Vec<String>, new_related_id: &str) -> (updated: Option<Vec<String>>)
    ensures
        match updated {
            Some(ids) => !texts(related@).contains(new_related_id@) && texts(ids@) == texts(related@).push(
                new_related_id@,
            ),
            None => texts(related@).contains(new_related_id@),
        },
{
    if contains_text(&related, new_related_id) {
        None
    } else {
        let mut ids = related;
        let ghost before = ids@;
        let added = String::from_str(new_related_id);
        ids.push(added);
        assert(texts(ids@) =~= texts(before).push(new_related_id@));
        Some(ids)
    }
}

/// The identifiers to store for a problem once `related_id_to_remove` is
/// related to it no longer.
pub fn remove_relation(related: &Vec<String>, related_id_to_remove: &str) -> (kept: Vec<String>)
    ensures
        texts(kept@) == without_relation(texts(related@), related_id_to_remove@),
{
    let mut kept: Vec<String> = Vec::new();
    let mut i: usize = 0;
    proof {
        assert(texts(related@).take(0) =~= Seq::<Seq<char>>::empty());
        assert(texts(kept@) =~= Seq::<Seq<char>>::empty());
    }
    while i < related.len()
        invariant
            i <= related.len(),
            texts(kept@) == without_relation(texts(related@).take(i as int), related_id_to_remove@),
        decreases related.len() - i,
    {
        proof {
            assert(texts(related@).take(i + 1).drop_last() =~= texts(related@).take(i as int));
        }
        if !same_text(related[i].as_str(), related_id_to_remove) {
            let ghost before = kept@;
            let item = related[i].clone();
            kept.push(item);
            assert(texts(kept@) =~= texts(before).push(item@));
        }
        i = i + 1;
    }
    proof {
        assert(texts(related@).take(i as int) =~= texts(related@));
    }
    kept
}

/// `n` question marks with a comma and a space between each two.
pub open spec fn placeholders(n: nat) -> Seq<char>
    decreases n,
{
    if n == 0 {
        Seq::empty()
    } else if n == 1 {
        "?"@
    } else {
        placeholders((n - 1) as nat) + ", ?"@
    }
}

/// The placeholders of a query that takes `n` values.
pub fn query_placeholders(n: usize) -> (text: String)
    ensures
        text@ == placeholders(n as nat),
{
    let mut text = String::new();
    let mut i: usize = 0;
    while i < n
        invariant
            i <= n,
            text@ == placeholders(i as nat),
        decreases n - i,
    {
        if i == 0 {
            text.append("?");
            assert(Seq::<char>::empty() + "?"@ =~= "?"@);
        } else {
            text.append(", ?");
        }
        i = i + 1;
    }
    text
}

/// The pattern that finds `query` anywhere in a text, whatever its case.
pub fn search_pattern(query: &str) -> (pattern: String)
    ensures
        pattern@ == "%"@ + lowercase_of(query@) + "%"@,
{
    let lower = to_lowercase(query);
    let mut pattern = String::from_str("%");
    pattern.append(lower.as_str());
    pattern.append("%");
    pattern
}

/// Most suggestions that a query is answered with.
pub const MAX_SUGGESTIONS: usize = 10;

/// Whether a topic is suggested for a query: it is if the query occurs in
/// it, whatever the case of either.
pub open spec fn suggests(topic: Seq<char>, query: Seq<char>) -> bool {
    occurs_in(lowercase_of(query), lowercase_of(topic))
}

/// The suggestions gathered so far, after one more topic: the topic is
/// added if it is suggested, is not among them yet, and there are fewer
/// than ten.
pub open spec fn with_suggestion(found: Seq<Seq<char>>, topic: Seq<char>, query: Seq<char>) -> Seq<Seq<char>> {
    if found.len() < 10 && suggests(topic, query) && !found.contains(topic) {
        found.push(topic)
    } else {
        found
    }
}

/// The suggestions gathered so far, after a run of topics.
pub open spec fn with_suggestions(found: Seq<Seq<char>>, topics: Seq<Seq<char>>, query: Seq<char>) -> Seq<
    Seq<char>,
>
    decreases topics.len(),
{
    if topics.len() == 0 {
        found
    } else {
        with_suggestion(with_suggestions(found, topics.drop_last(), query), topics.last(), query)
    }
}

/// The suggestions gathered so far, after a run of stored topic lists.
pub open spec fn suggestions_from(found: Seq<Seq<char>>, stored: Seq<Seq<char>>, query: Seq<char>) -> Seq<
    Seq<char>,
>
    decreases stored.len(),
{
    if stored.len() == 0 {
        found
    } else {
        with_suggestions(suggestions_from(found, stored.drop_last(), query), stored_strings(stored.last()), query)
    }
}

/// Adds to the suggestions those of `topics` that `lower_query`, the query
/// in lowercase, suggests.
fn gather_suggestions(found: &mut Vec<String>, topics: &Vec<String>, query: &str, lower_query: &Vec<char>)
    requires
        lower_query@ == lowercase_of(query@),
    ensures
        texts(final(found)@) == with_suggestions(texts(old(found)@), texts(topics@), query@),
{
    let mut i: usize = 0;
    proof {
        assert(texts(topics@).take(0) =~= Seq::<Seq<char>>::empty());
    }
    while i < topics.len()
        invariant
            i <= topics.len(),
            lower_query@ == lowercase_of(query@),
            texts(found@) == with_suggestions(texts(old(found)@), texts(topics@).take(i as int), query@),
        decreases topics.len() - i,
    {
        proof {
            assert(texts(topics@).take(i + 1).drop_last() =~= texts(topics@).take(i as int));
        }
        if found.len() < MAX_SUGGESTIONS {
            let lower = chars_of(to_lowercase(topics[i].as_str()).as_str());
            if contains_chars(&lower, lower_query) && !contains_text(found, topics[i].as_str()) {
                let ghost before = found@;
                let item = topics[i].clone();
                found.push(item);
                assert(texts(found@) =~= texts(before).push(item@));
            }
        }
        i = i + 1;
    }
    proof {
        assert(texts(topics@).take(i as int) =~= texts(topics@));
    }
}

/// The topics suggested for a query, from the stored topic lists that the
/// store found for it: at most ten, each once, in the order in which they
/// are met.
pub fn get_topic_suggestions(stored: &Vec<String>, query: &str) -> (found: Vec<String>)
    ensures
        texts(found@) == suggestions_from(Seq::empty(), texts(stored@), query@),
{
    let lower_query = chars_of(to_lowercase(query).as_str());
    let mut found: Vec<String> = Vec::new();
    let mut i: usize = 0;
    proof {
        assert(texts(stored@).take(0) =~= Seq::<Seq<char>>::empty());
        assert(texts(found@) =~= Seq::<Seq<char>>::empty());
    }
    while i < stored.len()
        invariant
            i <= stored.len(),
            lower_query@ == lowercase_of(query@),
            texts(found@) == suggestions_from(Seq::empty(), texts(stored@).take(i as int), query@),
        decreases stored.len() - i,
    {
        proof {
            assert(texts(stored@).take(i + 1).drop_last() =~= texts(stored@).take(i as int));
        }
        let topics = parse_json_array(stored[i].as_str());
        gather_suggestions(&mut found, &topics, query, &lower_query);
        i = i + 1;
    }
    proof {
        assert(texts(stored@).take(i as int) =~= texts(stored@));
    }
    found
}

/// Where the file of a recording lies, given the directory that the
/// application runs in and, for production, the directory of its data. A
/// path stored for development, or of the oldest kind, which begins with
/// `attachments/`, lies below the running directory as it stands. A path
/// stored for production lies, without its first component, below the
/// data directory, which in development is `dev-data` in the running
/// directory. Any other path is taken as it stands.
pub open spec fn recording_place(
    filepath: Seq<char>,
    current_dir: Seq<char>,
    app_data_dir: Seq<char>,
    development: bool,
) -> Seq<char> {
    if has_prefix(filepath, "dev-data/"@) {
        joined_path(current_dir, filepath)
    } else if has_prefix(filepath, "app-data/"@) {
        joined_path(
            if development {
                joined_path(current_dir, "dev-data"@)
            } else {
                app_data_dir
            },
            filepath.skip("app-data/"@.len() as int),
        )
    } else if has_prefix(filepath, "attachments/"@) {
        joined_path(current_dir, filepath)
    } else {
        filepath
    }
}

/// Where the file of a recording lies.
pub fn recording_location(filepath: &str, current_dir: &str, app_data_dir: &str, development: bool) -> (path:
    String)
    ensures
        path@ == recording_place(filepath@, current_dir@, app_data_dir@, development),
{
    let chars = chars_of(filepath);
    let production = chars_of("app-data/");
    assert(chars@.skip(0) =~= chars@);
    if starts_with(filepath, "dev-data/") {
        join_path(current_dir, filepath)
    } else if begins_at(&chars, 0, &production) {
        let rest = string_between(&chars, production.len(), chars.len());
        assert(rest@ =~= filepath@.skip("app-data/"@.len() as int));
        if development {
            let base = join_path(current_dir, "dev-data");
            join_path(base.as_str(), rest.as_str())
        } else {
            join_path(app_data_dir, rest.as_str())
        }
    } else if starts_with(filepath, "attachments/") {
        join_path(current_dir, filepath)
    } else {
        String::from_str(filepath)
    }
}

} // verus!
