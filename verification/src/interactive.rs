//! The interactive document flow: a console capability trait, prompts
//! that re-ask until the answer validates, tag entry driven by the
//! resolution flow, and the collector that assembles a whole
//! `DocumentInput`.

use vstd::prelude::*;
use vstd::string::*;
use crate::document::{suggest_document_date, valid_date, valid_document_input, DocumentInput};
use crate::error::CleanboxError;
use crate::filesystem::FileManager;
use crate::pathstr::{after_last, lemma_after_last_absent, lemma_after_last_at, rfind_char};
use crate::tags::{
    dict_has, find_similar_spec, flow_wf, is_space_char, lemma_find_similar_member,
    lemma_trim_start_at, str_eq, trim_chars, trim_spec, trim_start_spec, TagDictionary,
    TagResolution, TagResolutionFlow,
};
use crate::text::{
    chars_of, find_char, lemma_split_first_occ, lemma_split_no_occ, split_char, split_on,
    string_from_chars, subvec, valid_kebab,
};

verus! {

/// How often a prompt re-asks before giving up on the console. The
/// original flow would ask forever; a bound keeps every loop finite.
pub const MAX_PROMPT_ATTEMPTS: usize = 100;

/// Console input as the pipeline sees it. Implementations talk to a
/// terminal (or replay scripted answers), so no call result is
/// specified: callers validate every answer.
pub trait UserPrompt {
    /// Asks for a line of text, offering a default.
    fn prompt_string(&self, message: &str, default: Option<&str>) -> Result<
        String,
        CleanboxError,
    >;

    /// Asks a yes/no question, offering a default.
    fn prompt_confirmation(&self, message: &str, default: bool) -> Result<bool, CleanboxError>;

    /// Asks the user to pick one of the options, as an index into them.
    fn prompt_selection(&self, message: &str, options: &Vec<String>) -> Result<
        usize,
        CleanboxError,
    >;
}

/// Asks for a document date until the answer validates.
pub struct DatePrompt<P: UserPrompt, F: FileManager> {
    pub prompter: P,
    pub file_manager: F,
}

impl<P: UserPrompt, F: FileManager> DatePrompt<P, F> {
    /// A prompt over the given console and filesystem capabilities.
    pub fn new(prompter: P, file_manager: F) -> Self {
        DatePrompt { prompter, file_manager }
    }

    /// Asks for a date with the given default until a valid
    /// `YYYY-MM-DD` answer arrives; every successful answer is a valid
    /// date.
    fn prompt_date_with_default(&self, default: &str) -> (r: Result<String, CleanboxError>)
        ensures
            r matches Ok(d) ==> valid_date(d@),
    {
        let mut attempts: usize = 0;
        while attempts < MAX_PROMPT_ATTEMPTS
            invariant
                attempts <= MAX_PROMPT_ATTEMPTS,
            decreases MAX_PROMPT_ATTEMPTS - attempts,
        {
            let input = match self.prompter.prompt_string("Date (YYYY-MM-DD)", Some(default)) {
                Ok(s) => s,
                Err(e) => {
                    return Err(e);
                },
            };
            let probe = DocumentInput::new(input, "temp".to_owned(), Vec::new());
            if probe.validate_date().is_ok() {
                return Ok(probe.date);
            }
            attempts = attempts + 1;
        }
        Err(CleanboxError::InvalidUserInput("No valid date was entered".to_owned()))
    }

    /// Asks for a date defaulting to today.
    pub fn prompt_date(&self) -> (r: Result<String, CleanboxError>)
        ensures
            r matches Ok(d) ==> valid_date(d@),
    {
        let today = crate::document::today_date_string();
        self.prompt_date_with_default(today.as_str())
    }

    /// Asks for a date defaulting to the best suggestion for the file:
    /// a date in its name, else its modification date, else today.
    pub fn prompt_date_with_smart_suggestion(&self, filename: &str) -> (r: Result<
        String,
        CleanboxError,
    >)
        ensures
            r matches Ok(d) ==> valid_date(d@),
    {
        let suggested = suggest_document_date(filename, &self.file_manager);
        self.prompt_date_with_default(suggested.as_str())
    }
}

/// Asks for a document description until the answer validates.
pub struct DescriptionPrompt<P: UserPrompt> {
    pub prompter: P,
}

impl<P: UserPrompt> DescriptionPrompt<P> {
    /// A prompt over the given console capability.
    pub fn new(prompter: P) -> Self {
        DescriptionPrompt { prompter }
    }

    /// Asks for a description until a valid kebab-case answer arrives;
    /// every successful answer is valid.
    pub fn prompt_description(&self) -> (r: Result<String, CleanboxError>)
        ensures
            r matches Ok(d) ==> valid_kebab(d@),
    {
        let mut attempts: usize = 0;
        while attempts < MAX_PROMPT_ATTEMPTS
            invariant
                attempts <= MAX_PROMPT_ATTEMPTS,
            decreases MAX_PROMPT_ATTEMPTS - attempts,
        {
            let input = match self.prompter.prompt_string("Description (kebab-case)", None) {
                Ok(s) => s,
                Err(e) => {
                    return Err(e);
                },
            };
            let probe = DocumentInput::new("2025-01-01".to_owned(), input, Vec::new());
            if probe.validate_description().is_ok() {
                return Ok(probe.description);
            }
            attempts = attempts + 1;
        }
        Err(CleanboxError::InvalidUserInput("No valid description was entered".to_owned()))
    }
}

/// Decides whether a string with exactly these characters is already in
/// the list.
fn list_has(list: &Vec<String>, value: &str) -> (r: bool)
    ensures
        r == dict_has(list@, value@),
{
    let n = list.len();
    let mut i: usize = 0;
    while i < n
        invariant
            n == list@.len(),
            forall|j: int| 0 <= j < i ==> #[trigger] list@[j]@ != value@,
        decreases n - i,
    {
        if str_eq(list[i].as_str(), value) {
            return true;
        }
        i = i + 1;
    }
    false
}

/// Drives tag entry: reads comma-separated tags, resolves each through
/// the dictionary, and lets the user pick a similar tag or create a new
/// one.
pub struct SmartTagSelector<P: UserPrompt> {
    pub prompter: P,
    pub flow: TagResolutionFlow,
}

impl<P: UserPrompt> SmartTagSelector<P> {
    /// A selector over the given console capability and dictionary.
    pub fn new(prompter: P, tag_dictionary: TagDictionary) -> (r: Self)
        ensures
            r.flow@ == tag_dictionary@,
    {
        SmartTagSelector { prompter, flow: TagResolutionFlow::new(tag_dictionary) }
    }

    /// Resolves one typed tag to an accepted tag, or to nothing when
    /// the user declines it or its format is invalid. An accepted tag
    /// is always valid and a member of the (possibly grown) dictionary.
    pub fn resolve_single_tag(&mut self, tag: &str) -> (r: Result<Option<String>, CleanboxError>)
        requires
            flow_wf(&old(self).flow),
        ensures
            flow_wf(&final(self).flow),
            old(self).flow@.len() <= final(self).flow@.len(),
            final(self).flow@.take(old(self).flow@.len() as int) == old(self).flow@,
            r matches Ok(Some(t)) ==> valid_kebab(t@) && dict_has(final(self).flow@, t@),
    {
        let resolution = self.flow.resolve_tag(tag);
        match resolution {
            TagResolution::ExactMatch(matched_tag) => {
                proof {
                    let w = choose|i: int|
                        0 <= i < self.flow@.len() && #[trigger] self.flow@[i]@ == tag@;
                    assert(valid_kebab(self.flow@[w]@));
                    assert(self.flow@.take(self.flow@.len() as int) =~= self.flow@);
                }
                Ok(Some(matched_tag))
            },
            TagResolution::SimilarFound { input, similar, can_create } => {
                let mut options: Vec<String> = Vec::new();
                let sn = similar.len();
                let mut k: usize = 0;
                while k < sn
                    invariant
                        sn == similar@.len(),
                        k <= sn,
                        options@.len() == k,
                        forall|j: int| 0 <= j < k ==> #[trigger] options@[j]@ == similar@[j].tag@,
                    decreases sn - k,
                {
                    options.push(similar[k].tag.clone());
                    k = k + 1;
                }
                if can_create {
                    options.push(
                        "Create new tag '".to_owned().concat(input.as_str()).concat("'"),
                    );
                }
                let selection = match self.prompter.prompt_selection(
                    "Choose an option:",
                    &options,
                ) {
                    Ok(s) => s,
                    Err(e) => {
                        proof {
                            assert(self.flow@.take(self.flow@.len() as int) =~= self.flow@);
                        }
                        return Err(e);
                    },
                };
                if can_create && selection == options.len() - 1 {
                    let added = self.flow.add_new_tag(input.as_str());
                    if let Err(e) = added {
                        proof {
                            assert(self.flow@.take(old(self).flow@.len() as int) =~= old(
                                self,
                            ).flow@);
                        }
                        return Err(e);
                    }
                    proof {
                        if dict_has(old(self).flow@, input@) {
                            assert(self.flow@.take(self.flow@.len() as int) =~= self.flow@);
                        } else {
                            assert(dict_has(self.flow@, input@)) by {
                                assert(self.flow@[self.flow@.len() - 1]@ == input@);
                            }
                        }
                    }
                    Ok(Some(input))
                } else if selection < sn {
                    proof {
                        assert(self.flow@.take(self.flow@.len() as int) =~= self.flow@);
                        lemma_find_similar_member(input@, self.flow@, 3, selection as int);
                        let w = choose|i: int|
                            0 <= i < self.flow@.len()
                                && #[trigger] self.flow@[i]@ == similar@[selection as int].tag@;
                        assert(valid_kebab(self.flow@[w]@));
                    }
                    Ok(Some(similar[selection].tag.clone()))
                } else {
                    proof {
                        assert(self.flow@.take(self.flow@.len() as int) =~= self.flow@);
                    }
                    Err(CleanboxError::InvalidUserInput("Invalid selection".to_owned()))
                }
            },
            TagResolution::NoMatch { input, can_create } => {
                proof {
                    assert(self.flow@.take(self.flow@.len() as int) =~= self.flow@);
                }
                if can_create {
                    let message = "Create new tag '".to_owned().concat(input.as_str()).concat(
                        "'?",
                    );
                    let create = match self.prompter.prompt_confirmation(message.as_str(), true) {
                        Ok(c) => c,
                        Err(e) => {
                            return Err(e);
                        },
                    };
                    if create {
                        let added = self.flow.add_new_tag(input.as_str());
                        if let Err(e) = added {
                            proof {
                                assert(self.flow@.take(old(self).flow@.len() as int) =~= old(
                                    self,
                                ).flow@);
                            }
                            return Err(e);
                        }
                        proof {
                            if dict_has(old(self).flow@, input@) {
                                assert(self.flow@.take(self.flow@.len() as int) =~= self.flow@);
                            } else {
                                assert(dict_has(self.flow@, input@)) by {
                                    assert(self.flow@[self.flow@.len() - 1]@ == input@);
                                }
                            }
                        }
                        Ok(Some(input))
                    } else {
                        Ok(None)
                    }
                } else {
                    Ok(None)
                }
            },
        }
    }

    /// Reads tags until the user is done: comma-separated entries are
    /// resolved one by one, duplicates are dropped, and at least one
    /// tag must be accepted. Every returned tag is valid, distinct, and
    /// a member of the (possibly grown) dictionary.
    pub fn prompt_tags(&mut self) -> (r: Result<Vec<String>, CleanboxError>)
        requires
            flow_wf(&old(self).flow),
        ensures
            flow_wf(&final(self).flow),
            old(self).flow@.len() <= final(self).flow@.len(),
            final(self).flow@.take(old(self).flow@.len() as int) == old(self).flow@,
            r matches Ok(tags) ==> tags@.len() > 0 && (forall|i: int|
                0 <= i < tags@.len() ==> valid_kebab(#[trigger] tags@[i]@) && dict_has(
                    final(self).flow@,
                    tags@[i]@,
                )) && (forall|i: int, j: int|
                0 <= i < j < tags@.len() ==> tags@[i]@ != tags@[j]@),
    {
        proof {
            assert(self.flow@.take(self.flow@.len() as int) =~= self.flow@);
        }
        let mut selected: Vec<String> = Vec::new();
        let mut attempts: usize = 0;
        while attempts < MAX_PROMPT_ATTEMPTS
            invariant
                attempts <= MAX_PROMPT_ATTEMPTS,
                flow_wf(&self.flow),
                old(self).flow@.len() <= self.flow@.len(),
                self.flow@.take(old(self).flow@.len() as int) == old(self).flow@,
                forall|i: int|
                    0 <= i < selected@.len() ==> valid_kebab(#[trigger] selected@[i]@)
                        && dict_has(self.flow@, selected@[i]@),
                forall|i: int, j: int|
                    0 <= i < j < selected@.len() ==> selected@[i]@ != selected@[j]@,
            decreases MAX_PROMPT_ATTEMPTS - attempts,
        {
            let input = match self.prompter.prompt_string("Tags (comma-separated)", None) {
                Ok(s) => s,
                Err(e) => {
                    return Err(e);
                },
            };
            let input_chars = chars_of(input.as_str());
            let trimmed = trim_chars(&input_chars);
            if trimmed.len() == 0 {
                if selected.len() > 0 {
                    return Ok(selected);
                }
                attempts = attempts + 1;
                continue ;
            }
            let parts = split_on(&trimmed, ',');
            let pn = parts.len();
            let mut p: usize = 0;
            while p < pn
                invariant
                    pn == parts@.len(),
                    flow_wf(&self.flow),
                    old(self).flow@.len() <= self.flow@.len(),
                    self.flow@.take(old(self).flow@.len() as int) == old(self).flow@,
                    forall|i: int|
                        0 <= i < selected@.len() ==> valid_kebab(#[trigger] selected@[i]@)
                            && dict_has(self.flow@, selected@[i]@),
                    forall|i: int, j: int|
                        0 <= i < j < selected@.len() ==> selected@[i]@ != selected@[j]@,
                decreases pn - p,
            {
                let piece = trim_chars(&parts[p]);
                if piece.len() > 0 {
                    let ghost pre_flow = self.flow@;
                    let word = string_from_chars(&piece);
                    let resolved = match self.resolve_single_tag(word.as_str()) {
                        Ok(o) => o,
                        Err(e) => {
                            return Err(e);
                        },
                    };
                    proof {
                        assert(self.flow@.take(old(self).flow@.len() as int) =~= pre_flow.take(
                            old(self).flow@.len() as int,
                        )) by {
                            assert(forall|j: int|
                                0 <= j < pre_flow.len() ==> self.flow@.take(
                                    pre_flow.len() as int,
                                )[j] == #[trigger] self.flow@[j]);
                        }
                        assert forall|i: int|
                            0 <= i < selected@.len() implies valid_kebab(
                            #[trigger] selected@[i]@,
                        ) && dict_has(self.flow@, selected@[i]@) by {
                            crate::tags::lemma_dict_has_grows(
                                pre_flow,
                                self.flow@,
                                selected@[i]@,
                            );
                        }
                    }
                    match resolved {
                        Some(resolved_tag) => {
                            if !list_has(&selected, resolved_tag.as_str()) {
                                selected.push(resolved_tag);
                            }
                        },
                        None => {},
                    }
                }
                p = p + 1;
            }
            if selected.len() > 0 {
                let more = match self.prompter.prompt_confirmation("Add more tags?", false) {
                    Ok(m) => m,
                    Err(e) => {
                        return Err(e);
                    },
                };
                if !more {
                    return Ok(selected);
                }
            }
            attempts = attempts + 1;
        }
        Err(CleanboxError::InvalidUserInput("No valid tag was entered".to_owned()))
    }

    /// Writes the selector's dictionary to its file.
    pub fn save_dictionary<F: FileManager>(&self, file_manager: &F, file_path: &str) -> (r: Result<
        (),
        CleanboxError,
    >)
        ensures
            r matches Err(e) ==> e is TagDictionaryCorrupted,
    {
        self.flow.dictionary().save_to_file(file_manager, file_path)
    }
}

/// Where the word under the cursor starts, before its own whitespace is
/// trimmed: right after the last comma before the cursor, with the
/// whitespace after that comma skipped (unless only whitespace follows,
/// which keeps the position at the comma's end).
pub open spec fn word_start_spec(line: Seq<char>, pos: int) -> int {
    let sa = pos - after_last(line.take(pos), ',').len();
    let rest = line.skip(sa);
    let t = trim_start_spec(rest);
    if t.len() == 0 {
        sa
    } else {
        sa + rest.len() - t.len()
    }
}

/// Where the word under the cursor ends: at the next comma at or after
/// the cursor, or at the end of the line.
pub open spec fn word_end_spec(line: Seq<char>, pos: int) -> int {
    pos + split_char(line.skip(pos), ',')[0].len() as int
}

/// The word under the cursor in a comma-separated line, with the
/// position of its first non-whitespace character: what completion
/// matches against and where the replacement goes.
pub open spec fn current_word_spec(line: Seq<char>, pos: int) -> (int, Seq<char>) {
    let ws0 = word_start_spec(line, pos);
    let we = word_end_spec(line, pos);
    let ws = if ws0 <= we {
        ws0
    } else {
        we
    };
    let seg = line.subrange(ws, we);
    let t2 = trim_start_spec(seg);
    let start = if t2.len() == 0 {
        ws
    } else {
        ws + seg.len() - t2.len()
    };
    (start, trim_spec(seg))
}

/// Completion support for tag entry: finds the word under the cursor in
/// a comma-separated line and ranks the dictionary against it.
pub struct FuzzyTagCompleter<'a> {
    pub tag_dictionary: &'a TagDictionary,
}

impl<'a> FuzzyTagCompleter<'a> {
    /// A completer over the given dictionary.
    pub fn new(tag_dictionary: &'a TagDictionary) -> Self {
        FuzzyTagCompleter { tag_dictionary }
    }

    /// Splits the word under the cursor out of a comma-separated line,
    /// with the position its replacement starts at.
    #[verifier::rlimit(50)]
    pub fn extract_current_word(&self, line: &str, pos: usize) -> (r: (usize, String))
        requires
            pos <= line@.len(),
        ensures
            r.0 as int == current_word_spec(line@, pos as int).0,
            r.1@ == current_word_spec(line@, pos as int).1,
    {
        let chars = chars_of(line);
        let n = chars.len();
        let prefix = subvec(&chars, 0, pos);
        let sa = match rfind_char(&prefix, ',') {
            Some(i) => {
                proof {
                    lemma_after_last_at(prefix@, ',', i as int);
                }
                i + 1
            },
            None => {
                proof {
                    lemma_after_last_absent(prefix@, ',');
                }
                0
            },
        };
        proof {
            assert(prefix@ =~= line@.take(pos as int));
        }
        let mut w: usize = sa;
        while w < n && (chars[w] == ' ' || chars[w] == '\t' || chars[w] == '\r' || chars[w]
            == '\n')
            invariant
                chars@ == line@,
                n == line@.len(),
                sa <= w <= n,
                forall|j: int| sa <= j < w ==> is_space_char(line@[j]),
            decreases n - w,
        {
            w = w + 1;
        }
        proof {
            let rest = line@.skip(sa as int);
            assert(forall|j: int| 0 <= j < w - sa ==> is_space_char(#[trigger] rest[j]));
            lemma_trim_start_at(rest, w - sa);
        }
        let ws0 = if w < n {
            w
        } else {
            sa
        };
        let we = match find_char(&chars, ',', pos) {
            Some(i) => {
                proof {
                    let rest = line@.skip(pos as int);
                    assert(rest[i - pos] == ',');
                    assert(forall|j: int| 0 <= j < i - pos ==> rest[j] != ',');
                    lemma_split_first_occ(rest, ',', i - pos);
                }
                i
            },
            None => {
                proof {
                    let rest = line@.skip(pos as int);
                    assert(forall|j: int| 0 <= j < rest.len() ==> rest[j] != ',');
                    lemma_split_no_occ(rest, ',');
                }
                n
            },
        };
        let ws = if ws0 <= we {
            ws0
        } else {
            we
        };
        let seg = subvec(&chars, ws, we);
        let trimmed = trim_chars(&seg);
        let m = seg.len();
        let mut u: usize = 0;
        while u < m && (seg[u] == ' ' || seg[u] == '\t' || seg[u] == '\r' || seg[u] == '\n')
            invariant
                m == seg@.len(),
                u <= m,
                forall|j: int| 0 <= j < u ==> is_space_char(#[trigger] seg@[j]),
            decreases m - u,
        {
            u = u + 1;
        }
        proof {
            lemma_trim_start_at(seg@, u as int);
        }
        let start = if u < m {
            ws + u
        } else {
            ws
        };
        (start, string_from_chars(&trimmed))
    }

    /// The completion candidates for the word under the cursor: the top
    /// fuzzy matches of the dictionary, with the position the chosen
    /// replacement starts at. An empty word offers nothing.
    pub fn complete_candidates(&self, line: &str, pos: usize) -> (r: (usize, Vec<String>))
        requires
            pos <= line@.len(),
        ensures
            r.0 as int == current_word_spec(line@, pos as int).0,
            ({
                let word = current_word_spec(line@, pos as int).1;
                let ranked = find_similar_spec(word, self.tag_dictionary@, 8);
                &&& (word.len() == 0 ==> r.1@.len() == 0)
                &&& (word.len() > 0 ==> r.1@.len() == ranked.len() && forall|k: int|
                    0 <= k < ranked.len() ==> #[trigger] r.1@[k]@ == ranked[k].tag@)
            }),
    {
        let (start, word) = self.extract_current_word(line, pos);
        let word_chars = chars_of(word.as_str());
        if word_chars.len() == 0 {
            return (start, Vec::new());
        }
        let similar = self.tag_dictionary.find_similar(word.as_str(), 8);
        let sn = similar.len();
        let mut candidates: Vec<String> = Vec::new();
        let mut k: usize = 0;
        while k < sn
            invariant
                sn == similar@.len(),
                k <= sn,
                candidates@.len() == k,
                forall|j: int| 0 <= j < k ==> #[trigger] candidates@[j]@ == similar@[j].tag@,
            decreases sn - k,
        {
            candidates.push(similar[k].tag.clone());
            k = k + 1;
        }
        (start, candidates)
    }
}

/// Collects a whole document label: a date with a smart default, a
/// description, and at least one resolved tag.
pub struct DocumentInputCollector<P: UserPrompt, F: FileManager> {
    pub date_prompt: DatePrompt<P, F>,
    pub description_prompt: DescriptionPrompt<P>,
    pub tag_selector: SmartTagSelector<P>,
}

impl<P: UserPrompt + Clone, F: FileManager> DocumentInputCollector<P, F> {
    /// A collector that asks everything through one console capability.
    pub fn new(prompter: P, tag_dictionary: TagDictionary, file_manager: F) -> (r: Self)
        ensures
            r.tag_selector.flow@ == tag_dictionary@,
    {
        DocumentInputCollector {
            date_prompt: DatePrompt::new(prompter.clone(), file_manager),
            description_prompt: DescriptionPrompt::new(prompter.clone()),
            tag_selector: SmartTagSelector::new(prompter, tag_dictionary),
        }
    }
}

impl<P: UserPrompt, F: FileManager> DocumentInputCollector<P, F> {
    /// A collector with a separate console capability for each step.
    pub fn new_separate(
        date_prompter: P,
        desc_prompter: P,
        tag_prompter: P,
        tag_dictionary: TagDictionary,
        file_manager: F,
    ) -> (r: Self)
        ensures
            r.tag_selector.flow@ == tag_dictionary@,
    {
        DocumentInputCollector {
            date_prompt: DatePrompt::new(date_prompter, file_manager),
            description_prompt: DescriptionPrompt::new(desc_prompter),
            tag_selector: SmartTagSelector::new(tag_prompter, tag_dictionary),
        }
    }

    /// Collects and validates one document label; everything handed
    /// back has passed validation.
    pub fn collect_input(&mut self, filename: &str) -> (r: Result<DocumentInput, CleanboxError>)
        requires
            flow_wf(&old(self).tag_selector.flow),
        ensures
            flow_wf(&final(self).tag_selector.flow),
            r matches Ok(d) ==> valid_document_input(&d),
    {
        let date = match self.date_prompt.prompt_date_with_smart_suggestion(filename) {
            Ok(d) => d,
            Err(e) => {
                return Err(e);
            },
        };
        let description = match self.description_prompt.prompt_description() {
            Ok(d) => d,
            Err(e) => {
                return Err(e);
            },
        };
        let tags = match self.tag_selector.prompt_tags() {
            Ok(t) => t,
            Err(e) => {
                return Err(e);
            },
        };
        let input = DocumentInput::new(date, description, tags);
        match input.validate() {
            Ok(()) => Ok(input),
            Err(e) => Err(e),
        }
    }

    /// Writes the collector's dictionary to its file.
    pub fn save_tag_dictionary(&self, file_path: &str) -> (r: Result<(), CleanboxError>)
        ensures
            r matches Err(e) ==> e is TagDictionaryCorrupted,
    {
        self.tag_selector.save_dictionary(&self.date_prompt.file_manager, file_path)
    }
}

/// A plain progress counter: how many of how many steps are done.
#[derive(Debug)]
pub struct ProgressIndicator {
    pub current: usize,
    pub total: usize,
    pub task_name: String,
}

impl ProgressIndicator {
    /// A fresh counter at zero.
    pub fn new(total: usize, task_name: String) -> (r: Self)
        ensures
            r.current == 0,
            r.total == total,
            r.task_name == task_name,
    {
        ProgressIndicator { current: 0, total, task_name }
    }

    /// Sets the step counter.
    pub fn update(&mut self, current: usize)
        ensures
            final(self).current == current,
            final(self).total == old(self).total,
            final(self).task_name == old(self).task_name,
    {
        self.current = current;
    }

    /// Marks everything done.
    pub fn finish(&mut self)
        ensures
            final(self).current == old(self).total,
            final(self).total == old(self).total,
            final(self).task_name == old(self).task_name,
    {
        let t = self.total;
        self.update(t);
    }

    /// Advances the step counter by one.
    pub fn increment(&mut self)
        requires
            old(self).current < usize::MAX,
        ensures
            final(self).current == old(self).current + 1,
            final(self).total == old(self).total,
            final(self).task_name == old(self).task_name,
    {
        let c = self.current + 1;
        self.update(c);
    }
}

} // verus!
