//! Credentials are hidden from everything that a child process prints.
use crate::json::{
    escape_of, escaped, field, field_model, fields_model, fields_model_index, json_parsed,
    json_parsed_bytes, json_written, lacks, list_model, list_model_index, longer, longest,
    longest_field, longest_item, model, parse_json, parse_json_bytes, quoted, write_json, Json,
    JsonModel,
};
use crate::text::{
    apart, begins, blank, chars_of, contains, first_index, first_index_within, fits_over, holds,
    holds_in_rest, index_of, is_blank, join3, occurs_at, replace, replaced, replaced_absent,
    replaced_brings_nothing, string_of, texts,
};
use vstd::prelude::*;
use vstd::string::*;
use vstd::utf8::encode_utf8;

verus! {

/// What stands in place of a credential.
pub open spec fn marker() -> Seq<char> {
    "[已隐藏密钥]"@
}

/// The number of bytes of a text.
pub open spec fn byte_length(s: Seq<char>) -> usize {
    encode_utf8(s).len() as usize
}

/// `keys` with `key` placed before the first shorter one.
pub open spec fn placed(keys: Seq<Seq<char>>, key: Seq<char>) -> Seq<Seq<char>>
    decreases keys.len(),
{
    if keys.len() == 0 {
        seq![key]
    } else if byte_length(keys[0]) < byte_length(key) {
        seq![key] + keys
    } else {
        seq![keys[0]] + placed(keys.skip(1), key)
    }
}

/// The keys that are not empty, longest first; equal lengths keep their order.
pub open spec fn longest_first(keys: Seq<Seq<char>>) -> Seq<Seq<char>>
    decreases keys.len(),
{
    if keys.len() == 0 {
        Seq::empty()
    } else if keys.last().len() == 0 {
        longest_first(keys.drop_last())
    } else {
        placed(longest_first(keys.drop_last()), keys.last())
    }
}

/// `s` without one key, neither plain nor as JSON spells it.
pub open spec fn without_key(s: Seq<char>, key: Seq<char>) -> Seq<char> {
    replaced(replaced(s, key, marker()), escaped(key), marker())
}

/// `s` without the keys, one after the other.
pub open spec fn without_keys(s: Seq<char>, keys: Seq<Seq<char>>) -> Seq<char>
    decreases keys.len(),
{
    if keys.len() == 0 {
        s
    } else {
        without_keys(without_key(s, keys[0]), keys.skip(1))
    }
}

/// `s` with every key hidden.
pub open spec fn hidden(keys: Seq<Seq<char>>, s: Seq<char>) -> Seq<char> {
    without_keys(s, longest_first(keys))
}

/// The position behind the quote that closes a JSON token, reading from inside
/// the token: a backslash takes the next character with it.
pub open spec fn token_end(s: Seq<char>, i: int) -> Option<int>
    decreases s.len() + 1 - i,
{
    if i < 0 || i >= s.len() {
        None
    } else if s[i] == '\\' {
        token_end(s, i + 2)
    } else if s[i] == '"' {
        Some(i + 1)
    } else {
        token_end(s, i + 1)
    }
}

/// A line that is no JSON document, from `copied` on: each quoted token that can
/// be decoded from `cursor` on is decoded, hidden and encoded again.
pub open spec fn hidden_tokens(
    keys: Seq<Seq<char>>,
    s: Seq<char>,
    copied: int,
    cursor: int,
) -> Seq<char>
    decreases s.len() - cursor,
{
    let start = cursor + first_index(s.skip(cursor), '"');
    match token_end(s, start + 1) {
        Some(end) if cursor < end <= s.len() => match json_parsed(s.subrange(start, end)) {
            Some(JsonModel::Text(token)) => hidden(keys, s.subrange(copied, start)) + quoted(
                hidden(keys, token),
            ) + hidden_tokens(keys, s, end, end),
            _ => hidden_tokens(keys, s, copied, end),
        },
        _ => hidden(keys, s.skip(copied)),
    }
}

/// A line between quotes, so that its beginning and its end bound a run as a quote
/// does.
pub open spec fn bounded(line: Seq<char>) -> Seq<char> {
    seq!['"'] + line + seq!['"']
}

/// What the run from the quote at `i` to the next quote that no backslash escapes
/// says, where it is a JSON text.
pub open spec fn run_text(s: Seq<char>, i: int) -> Option<Seq<char>> {
    match token_end(s, i + 1) {
        Some(end) => match json_parsed(s.subrange(i, end)) {
            Some(JsonModel::Text(text)) => Some(text),
            _ => None,
        },
        None => None,
    }
}

/// No key stands in `s`, apart from those that can overlap the marker.
pub open spec fn holds_no_key(keys: Seq<Seq<char>>, s: Seq<char>) -> bool {
    forall|k: int|
        0 <= k < keys.len() && (#[trigger] keys[k]).len() > 0 && apart(keys[k], marker())
            ==> !holds(s, keys[k])
}

/// No run of a line says a key, whichever quote it begins with and however it is
/// spelled.
pub open spec fn says_no_key(keys: Seq<Seq<char>>, line: Seq<char>) -> bool {
    let s = bounded(line);
    forall|i: int|
        0 <= i < s.len() && s[i] == '"' ==> match #[trigger] run_text(s, i) {
            Some(text) => holds_no_key(keys, text),
            None => true,
        }
}

/// What follows the quote at `i` up to the last one, each run that is a JSON text
/// decoded, hidden and spelled again. The quote that closes a run may open the next.
pub open spec fn hidden_runs(keys: Seq<Seq<char>>, s: Seq<char>, i: int) -> Seq<char>
    decreases s.len() - i,
{
    let next = i + 1 + first_index(s.skip(i + 1), '"');
    if i < 0 || i >= s.len() - 1 {
        Seq::empty()
    } else {
        match (run_text(s, i), token_end(s, i + 1)) {
            (Some(text), Some(end)) if i + 1 < end <= s.len() => escaped(hidden(keys, text))
                + after_quote(s, end - 1) + hidden_runs(keys, s, end - 1),
            _ => if i < next <= s.len() {
                s.subrange(i + 1, next) + after_quote(s, next) + hidden_runs(keys, s, next)
            } else {
                Seq::empty()
            },
        }
    }
}

/// The quote at `i`, unless it is the last character.
pub open spec fn after_quote(s: Seq<char>, i: int) -> Seq<char> {
    if i < s.len() - 1 {
        seq!['"']
    } else {
        Seq::empty()
    }
}

/// A line that is no JSON document with every key hidden. Mostly it is enough to
/// decode its quoted tokens. Where a run still says a key, every run is decoded; and
/// where even that does not do, nothing of the line is shown.
pub open spec fn hidden_text(keys: Seq<Seq<char>>, line: Seq<char>) -> Seq<char> {
    let tokens = hidden_tokens(keys, line, 0, 0);
    let runs = hidden(keys, hidden_runs(keys, bounded(line), 0));
    if says_no_key(keys, tokens) {
        tokens
    } else if says_no_key(keys, runs) {
        runs
    } else {
        marker()
    }
}

/// One line of output with every key hidden: a JSON document keeps its shape.
/// The texts of a document are shorter than the line that it was read from.
pub open spec fn hidden_line(keys: Seq<Seq<char>>, line: Seq<char>) -> Seq<char>
    decreases line.len(), 0nat,
{
    if keys.len() == 0 {
        line
    } else {
        match json_parsed(line) {
            Some(json) => if longest(json) < line.len() {
                json_written(hidden_json(keys, json))
            } else {
                line
            },
            None => hidden_text(keys, line),
        }
    }
}

/// A document with every key hidden in its texts and in its field names.
pub open spec fn hidden_json(keys: Seq<Seq<char>>, json: JsonModel) -> JsonModel
    decreases longest(json), 1nat, json, 0nat,
{
    match json {
        JsonModel::Text(s) => JsonModel::Text(hidden_line(keys, s)),
        JsonModel::List(items) => JsonModel::List(hidden_items(keys, items, items.len())),
        JsonModel::Object(fields) => JsonModel::Object(hidden_fields(keys, fields, fields.len())),
        other => other,
    }
}

pub open spec fn hidden_items(keys: Seq<Seq<char>>, items: Seq<JsonModel>, n: nat) -> Seq<JsonModel>
    decreases longest_item(items, items.len()), 1nat, items, n,
    via hidden_items_decreases
{
    if n == 0 || n > items.len() {
        Seq::empty()
    } else {
        hidden_items(keys, items, (n - 1) as nat).push(hidden_json(keys, items[n - 1]))
    }
}

#[via_fn]
proof fn hidden_items_decreases(keys: Seq<Seq<char>>, items: Seq<JsonModel>, n: nat) {
    if n > 0 && n <= items.len() {
        item_within(items, items.len(), n - 1);
    }
}

/// The first `n` fields, hidden; of two names that become one, the later stays.
pub open spec fn hidden_fields(
    keys: Seq<Seq<char>>,
    fields: Seq<(Seq<char>, JsonModel)>,
    n: nat,
) -> Seq<(Seq<char>, JsonModel)>
    decreases longest_field(fields, fields.len()), 1nat, fields, n,
    via hidden_fields_decreases
{
    if n == 0 || n > fields.len() {
        Seq::empty()
    } else {
        with_field(
            hidden_fields(keys, fields, (n - 1) as nat),
            hidden(keys, fields[n - 1].0),
            hidden_json(keys, fields[n - 1].1),
        )
    }
}

#[via_fn]
proof fn hidden_fields_decreases(
    keys: Seq<Seq<char>>,
    fields: Seq<(Seq<char>, JsonModel)>,
    n: nat,
) {
    if n > 0 && n <= fields.len() {
        field_within(fields, fields.len(), n - 1);
    }
}

/// `fields` with the named field set: in its place where the name is there, at
/// the end where it is not.
pub open spec fn with_field(
    fields: Seq<(Seq<char>, JsonModel)>,
    name: Seq<char>,
    value: JsonModel,
) -> Seq<(Seq<char>, JsonModel)>
    decreases fields.len(),
{
    if fields.len() == 0 {
        seq![(name, value)]
    } else if fields[0].0 == name {
        seq![(name, value)] + fields.skip(1)
    } else {
        seq![fields[0]] + with_field(fields.skip(1), name, value)
    }
}

proof fn item_within(items: Seq<JsonModel>, n: nat, i: int)
    requires
        0 <= i < n <= items.len(),
    ensures
        longest(items[i]) <= longest_item(items, n),
    decreases n,
{
    if i < n - 1 {
        item_within(items, (n - 1) as nat, i);
    }
}

proof fn field_within(fields: Seq<(Seq<char>, JsonModel)>, n: nat, i: int)
    requires
        0 <= i < n <= fields.len(),
    ensures
        longest(fields[i].1) <= longest_field(fields, n),
    decreases n,
{
    if i < n - 1 {
        field_within(fields, (n - 1) as nat, i);
    }
}

// ----------------------------------------------------------------- redactions

/// The credentials that the output of one process must not show.
pub struct Redactions(pub Vec<String>);

/// A key stands before the first shorter one.
proof fn placed_at(keys: Seq<Seq<char>>, key: Seq<char>, at: int)
    requires
        0 <= at <= keys.len(),
        forall|j: int| 0 <= j < at ==> byte_length(#[trigger] keys[j]) >= byte_length(key),
        at < keys.len() ==> byte_length(keys[at]) < byte_length(key),
    ensures
        placed(keys, key) == keys.insert(at, key),
    decreases keys.len(),
{
    if keys.len() == 0 {
        assert(keys.insert(at, key) =~= seq![key]);
    } else if at == 0 {
        assert(keys.insert(0, key) =~= seq![key] + keys);
    } else {
        let rest = keys.skip(1);
        assert forall|j: int| 0 <= j < at - 1 implies byte_length(#[trigger] rest[j])
            >= byte_length(key) by {
            assert(rest[j] == keys[j + 1]);
        }
        placed_at(rest, key, at - 1);
        assert(keys.insert(at, key) =~= seq![keys[0]] + rest.insert(at - 1, key));
    }
}

/// `zeroize::Zeroize::zeroize` on a vector of strings: overwrites them and
/// leaves the vector empty.
#[verifier::external_body]
fn erase(strings: &mut Vec<String>)
    ensures
        final(strings)@.len() == 0,
{
    zeroize::Zeroize::zeroize(strings)
}

impl Redactions {
    /// The keys, as texts.
    pub open spec fn keys(&self) -> Seq<Seq<char>> {
        texts(self.0@)
    }

    /// The credentials in a request that is sent to a process as JSON.
    pub fn of_request(bytes: &[u8]) -> (result: Redactions)
        ensures
            result.keys() == match json_parsed_bytes(bytes@) {
                Some(request) => request_keys(request),
                None => Seq::empty(),
            },
    {
        match parse_json_bytes(bytes) {
            Some(request) => Redactions::of_document(&request),
            None => {
                let result = Redactions(Vec::new());
                assert(result.keys() =~= Seq::empty());
                result
            },
        }
    }

    /// The credentials in a request document: the API keys of the language
    /// service and of the speech service, where they are texts and not empty.
    pub fn of_document(request: &Json) -> (result: Redactions)
        ensures
            result.keys() == request_keys(model(*request)),
    {
        let mut keys: Vec<String> = Vec::new();
        assert(texts(keys@) =~= Seq::empty());
        add_key(&mut keys, request, "llm");
        add_key(&mut keys, request, "asr_api");
        Redactions(keys)
    }

    /// The keys that are not empty, longest first.
    fn ordered(&self) -> (result: Vec<String>)
        ensures
            texts(result@) == longest_first(self.keys()),
    {
        let mut result: Vec<String> = Vec::new();
        let mut i: usize = 0;
        assert(texts(result@) =~= Seq::empty());
        assert(self.keys().take(0) =~= Seq::empty());
        while i < self.0.len()
            invariant
                i <= self.0@.len(),
                texts(result@) == longest_first(self.keys().take(i as int)),
            decreases self.0@.len() - i,
        {
            let key = &self.0[i];
            proof {
                let part = self.keys().take(i + 1);
                assert(part.drop_last() =~= self.keys().take(i as int));
                assert(part.last() == key@);
            }
            if !key.as_str().is_empty() {
                let mut at: usize = 0;
                while at < result.len() && result[at].as_str().len() >= key.as_str().len()
                    invariant
                        at <= result@.len(),
                        forall|j: int|
                            0 <= j < at ==> byte_length(#[trigger] texts(result@)[j])
                                >= byte_length(key@),
                    decreases result@.len() - at,
                {
                    at += 1;
                }
                let ghost before = texts(result@);
                result.insert(at, key.clone());
                proof {
                    placed_at(before, key@, at as int);
                    assert(texts(result@) =~= before.insert(at as int, key@));
                }
            }
            i += 1;
        }
        assert(self.keys().take(self.0@.len() as int) =~= self.keys());
        result
    }

    /// Hides every key in a plain text, also where it is spelled as in JSON.
    pub fn text(&self, input: &str) -> (result: String)
        ensures
            result@ == hidden(self.keys(), input@),
    {
        let keys = self.ordered();
        let mut result = input.to_owned();
        let mut i: usize = 0;
        proof {
            assert(texts(keys@).skip(0) =~= texts(keys@));
            longest_first_members(self.keys());
            assert forall|j: int| 0 <= j < keys@.len() implies (#[trigger] keys@[j])@.len() > 0 by {
                assert(texts(keys@)[j] == keys@[j]@);
            }
        }
        while i < keys.len()
            invariant
                i <= keys@.len(),
                forall|j: int| 0 <= j < keys@.len() ==> (#[trigger] keys@[j])@.len() > 0,
                without_keys(result@, texts(keys@).skip(i as int)) == hidden(self.keys(), input@),
            decreases keys@.len() - i,
        {
            let ghost rest = texts(keys@).skip(i as int);
            let key = keys[i].as_str();
            assert(rest[0] == key@);
            assert(rest.skip(1) =~= texts(keys@).skip(i + 1));
            let ghost before = result@;
            result = replace(result.as_str(), key, "[已隐藏密钥]");
            let spelled = chars_of(write_json(Json::Text(keys[i].clone())).as_str());
            if spelled.len() > 2 {
                let part = string_of(&spelled, 1, spelled.len() - 1);
                assert(part@ =~= escaped(key@));
                result = replace(result.as_str(), part.as_str(), "[已隐藏密钥]");
            }
            assert(result@ == without_key(before, key@));
            i += 1;
        }
        result
    }

    /// What is passed on of one line of output: nothing of a blank one.
    pub fn shown(&self, line: &str) -> (result: Option<String>)
        ensures
            result is Some == !is_blank(line@),
            result matches Some(text) ==> text@ == hidden_line(self.keys(), line@),
    {
        if blank(line) {
            None
        } else {
            Some(self.line(line))
        }
    }

    /// Overwrites the keys; none is left.
    pub fn wipe(&mut self)
        ensures
            final(self).keys().len() == 0,
    {
        erase(&mut self.0);
    }

    /// Hides every key in one line of output. Where the line is no document and has no
    /// backslash, no key stands in what is shown, unless it holds a quote or can
    /// overlap the marker.
    pub fn line(&self, line: &str) -> (result: String)
        ensures
            result@ == hidden_line(self.keys(), line@),
            json_parsed(line@) is None && lacks(line@, '\\') ==> is_clean(self.keys(), result@),
        decreases line@.len(), 0nat,
    {
        if self.0.is_empty() {
            return line.to_owned();
        }
        match parse_json(line) {
            Some(json) => write_json(self.value(json)),
            None => self.other_line(line),
        }
    }

    /// Hides every key in a line that is no document.
    fn other_line(&self, line: &str) -> (result: String)
        ensures
            result@ == hidden_text(self.keys(), line@),
            lacks(line@, '\\') ==> is_clean(self.keys(), result@),
    {
        let tokens = self.tokens(line);
        if self.says_nothing(tokens.as_str()) {
            return tokens;
        }
        let decoded = self.runs(line);
        let runs = self.text(decoded.as_str());
        proof {
            hidden_is_clean(self.keys(), decoded@);
            marker_is_clean(self.keys());
        }
        if self.says_nothing(runs.as_str()) {
            return runs;
        }
        "[已隐藏密钥]".to_owned()
    }

    /// Whether a text holds none of the keys that cannot overlap the marker.
    fn holds_nothing(&self, text: &str) -> (result: bool)
        ensures
            result == holds_no_key(self.keys(), text@),
    {
        let mut k: usize = 0;
        while k < self.0.len()
            invariant
                k <= self.0@.len(),
                forall|j: int|
                    0 <= j < k && (#[trigger] self.keys()[j]).len() > 0 && apart(
                        self.keys()[j],
                        marker(),
                    ) ==> !holds(text@, self.keys()[j]),
            decreases self.0@.len() - k,
        {
            let key = self.0[k].as_str();
            assert(self.keys()[k as int] == key@);
            if !key.is_empty() && contains(text, key) && stands_apart(key, "[已隐藏密钥]") {
                return false;
            }
            k += 1;
        }
        true
    }

    /// Whether no run of a line says a key.
    fn says_nothing(&self, line: &str) -> (result: bool)
        ensures
            result == says_no_key(self.keys(), line@),
    {
        let chars = with_bounds(line);
        let mut i: usize = 0;
        while i < chars.len()
            invariant
                chars@ == bounded(line@),
                i <= chars@.len(),
                forall|j: int|
                    0 <= j < i && chars@[j] == '"' ==> match #[trigger] run_text(chars@, j) {
                        Some(text) => holds_no_key(self.keys(), text),
                        None => true,
                    },
            decreases chars@.len() - i,
        {
            if chars[i] == '"' {
                if let Some(text) = run_at(&chars, i) {
                    if !self.holds_nothing(text.as_str()) {
                        assert(run_text(chars@, i as int) is Some);
                        return false;
                    }
                }
            }
            i += 1;
        }
        true
    }

    /// A line with each run decoded, hidden and spelled again.
    fn runs(&self, line: &str) -> (result: String)
        ensures
            result@ == hidden_runs(self.keys(), bounded(line@), 0),
    {
        let chars = with_bounds(line);
        let total: usize = chars.len();
        let mut result = String::new();
        let mut i: usize = 0;
        while i < total - 1
            invariant
                chars@ == bounded(line@),
                total == chars@.len(),
                total >= 2,
                i < total,
                chars@[i as int] == '"',
                result@ + hidden_runs(self.keys(), chars@, i as int) == hidden_runs(
                    self.keys(),
                    chars@,
                    0,
                ),
            decreases total - i,
        {
            let ghost before = result@;
            let ghost rest = hidden_runs(self.keys(), chars@, i as int);
            let next = match (run_at(&chars, i), closing(&chars, i)) {
                (Some(text), Some(end)) => {
                    proof {
                        token_end_closes(chars@, i + 1);
                    }
                    let shown = write_json(Json::Text(self.text(text.as_str())));
                    let spelled = chars_of(shown.as_str());
                    let part = string_of(&spelled, 1, spelled.len() - 1);
                    assert(part@ =~= escaped(hidden(self.keys(), text@)));
                    result.append(part.as_str());
                    end - 1
                },
                _ => {
                    let next = index_of(&chars, '"', i + 1);
                    proof {
                        first_index_within(chars@.skip(i + 1), '"');
                        let k = total - 2 - i;
                        assert(chars@.skip(i + 1)[k] == chars@[total - 1]);
                        assert(chars@.skip(i + 1)[next - i - 1] == chars@[next as int]);
                    }
                    result.append(string_of(&chars, i + 1, next).as_str());
                    next
                },
            };
            let ghost part = result@;
            if next < total - 1 {
                result.append("\"");
            }
            proof {
                reveal_strlit("\"");
                assert("\""@ =~= seq!['"']);
                assert(result@ =~= part + after_quote(chars@, next as int));
                assert(before + rest =~= result@ + hidden_runs(self.keys(), chars@, next as int));
            }
            i = next;
        }
        assert(hidden_runs(self.keys(), chars@, i as int) =~= Seq::empty());
        assert(result@ + Seq::<char>::empty() =~= result@);
        result
    }

    /// Hides every key in a document.
    pub fn value(&self, json: Json) -> (result: Json)
        ensures
            model(result) == hidden_json(self.keys(), model(json)),
        decreases longest(model(json)), 1nat, json,
    {
        match json {
            Json::Text(text) => Json::Text(self.line(text.as_str())),
            Json::List(items) => {
                let ghost whole = items;
                let ghost said = list_model(items, items@.len());
                proof {
                    list_model_index(items, items@.len());
                }
                let mut result: Vec<Json> = Vec::new();
                for item in it: items
                    invariant
                        whole == json->List_0,
                        it.seq() == whole@,
                        model(json) == JsonModel::List(said),
                        said.len() == whole@.len(),
                        forall|k: int| 0 <= k < said.len() ==> #[trigger] said[k] == model(whole@[k]),
                        result@.len() == it.index(),
                        forall|k: int|
                            0 <= k < result@.len() ==> model(#[trigger] result@[k])
                                == hidden_json(self.keys(), said[k]),
                {
                    proof {
                        item_within(said, said.len(), it.index() as int);
                        assert(decreases_to!(json => whole));
                        assert(decreases_to!(whole => whole@));
                        assert(decreases_to!(whole@ => whole@[it.index() as int]));
                    }
                    result.push(self.value(item));
                }
                let ghost n = said.len();
                proof {
                    hidden_items_index(self.keys(), said, n);
                    list_model_index(result, n);
                    assert(list_model(result, n) =~= hidden_items(self.keys(), said, n));
                }
                Json::List(result)
            },
            Json::Object(fields) => {
                let ghost whole = fields;
                let ghost said = fields_model(fields, fields@.len());
                proof {
                    fields_model_index(fields, fields@.len());
                }
                let mut result: Vec<(String, Json)> = Vec::new();
                for entry in it: fields
                    invariant
                        whole == json->Object_0,
                        it.seq() == whole@,
                        model(json) == JsonModel::Object(said),
                        said.len() == whole@.len(),
                        forall|k: int|
                            0 <= k < said.len() ==> #[trigger] said[k] == (
                                whole@[k].0@,
                                model(whole@[k].1),
                            ),
                        fields_model(result, result@.len()) == hidden_fields(
                            self.keys(),
                            said,
                            it.index() as nat,
                        ),
                {
                    let (name, value) = entry;
                    proof {
                        field_within(said, said.len(), it.index() as int);
                        assert(decreases_to!(json => whole));
                        assert(decreases_to!(whole => whole@));
                        assert(decreases_to!(whole@ => whole@[it.index() as int]));
                    }
                    let shown = self.text(name.as_str());
                    let value = self.value(value);
                    set_field(&mut result, shown, value);
                }
                Json::Object(result)
            },
            other => other,
        }
    }

    /// Hides every key in a line that is no document.
    fn tokens(&self, line: &str) -> (result: String)
        ensures
            result@ == hidden_tokens(self.keys(), line@, 0, 0),
            lacks(line@, '\\') ==> is_clean(self.keys(), result@),
    {
        let chars = chars_of(line);
        let mut result = String::new();
        let mut cursor: usize = 0;
        let mut copied: usize = 0;
        let mut open = true;
        while open
            invariant
                copied <= cursor <= chars@.len(),
                chars@ == line@,
                open ==> result@ + hidden_tokens(self.keys(), chars@, copied as int, cursor as int)
                    == hidden_tokens(self.keys(), chars@, 0, 0),
                !open ==> result@ + hidden(self.keys(), chars@.skip(copied as int))
                    == hidden_tokens(self.keys(), chars@, 0, 0),
                result@.len() == 0 || result@.last() == '"',
                lacks(chars@, '\\') ==> is_clean(self.keys(), result@),
            decreases chars@.len() - cursor, if open { 1int } else { 0int },
        {
            let start = index_of(&chars, '"', cursor);
            match closing(&chars, start) {
                Some(end) => {
                    let ghost before = result@;
                    let token = string_of(&chars, start, end);
                    match parse_json(token.as_str()) {
                        Some(Json::Text(inner)) => {
                            let plain = self.text(string_of(&chars, copied, start).as_str());
                            let shown = write_json(Json::Text(self.text(inner.as_str())));
                            proof {
                                if lacks(chars@, '\\') {
                                    assert forall|i: int| 0 <= i < token@.len() implies #[trigger] token@[i]
                                        != '\\' by {
                                        assert(token@[i] == chars@[start + i]);
                                    }
                                    assert(lacks(token@, '\\'));
                                    hidden_needs_no_escape(self.keys(), inner@);
                                    clean_grows(
                                        self.keys(),
                                        before,
                                        chars@.subrange(copied as int, start as int),
                                        inner@,
                                    );
                                }
                            }
                            result.append(plain.as_str());
                            result.append(shown.as_str());
                            assert(before + (plain@ + shown@ + hidden_tokens(
                                self.keys(),
                                chars@,
                                end as int,
                                end as int,
                            )) =~= result@ + hidden_tokens(
                                self.keys(),
                                chars@,
                                end as int,
                                end as int,
                            ));
                            copied = end;
                        },
                        _ => {},
                    }
                    cursor = end;
                },
                None => {
                    open = false;
                },
            }
        }
        let last = self.text(string_of(&chars, copied, chars.len()).as_str());
        assert(chars@.subrange(copied as int, chars@.len() as int) =~= chars@.skip(copied as int));
        proof {
            if lacks(chars@, '\\') {
                clean_ends(self.keys(), result@, chars@.skip(copied as int));
            }
        }
        result.append(last.as_str());
        result
    }
}

/// The characters of a line between quotes.
fn with_bounds(line: &str) -> (result: Vec<char>)
    ensures
        result@ == bounded(line@),
{
    let quoted = join3("\"", line, "\"");
    proof {
        reveal_strlit("\"");
        assert("\""@ =~= seq!['"']);
    }
    chars_of(quoted.as_str())
}

/// What the run from the quote at `i` says.
fn run_at(chars: &Vec<char>, i: usize) -> (result: Option<String>)
    requires
        i < chars@.len(),
    ensures
        result is Some == run_text(chars@, i as int) is Some,
        result matches Some(text) ==> Some(text@) == run_text(chars@, i as int),
{
    match closing(chars, i) {
        Some(end) => match parse_json(string_of(chars, i, end).as_str()) {
            Some(Json::Text(text)) => Some(text),
            _ => None,
        },
        None => None,
    }
}

proof fn token_end_closes(s: Seq<char>, i: int)
    ensures
        token_end(s, i) matches Some(end) ==> i < end <= s.len() && s[end - 1] == '"',
    decreases s.len() + 1 - i,
{
    if 0 <= i < s.len() && s[i] != '"' {
        token_end_closes(
            s,
            if s[i] == '\\' {
                i + 2
            } else {
                i + 1
            },
        );
    }
}

/// Whether no text in which `with` stands can hold `part` so that the two share a
/// character.
fn stands_apart(part: &str, with: &str) -> (result: bool)
    requires
        part@.len() > 0,
    ensures
        result == apart(part@, with@),
{
    let own = chars_of(part);
    let other = chars_of(with);
    let n: usize = own.len();
    let m: usize = other.len();
    // The first `d` characters of `part` stand before the first of `with`.
    let mut d: usize = 0;
    while d < n
        invariant
            d <= n,
            own@ == part@,
            other@ == with@,
            n == part@.len(),
            m == with@.len(),
            forall|i: int| -d < i <= 0 && -n < i < m ==> !#[trigger] fits_over(part@, with@, i),
        decreases n - d,
    {
        if (d > 0 || m > 0) && fits(&own, &other, d, 0) {
            assert(fits_over(part@, with@, -(d as int)));
            return false;
        }
        d += 1;
    }
    let mut at: usize = 0;
    while at < m
        invariant
            at <= m,
            n > 0,
            own@ == part@,
            other@ == with@,
            n == part@.len(),
            m == with@.len(),
            forall|i: int| -n < i <= 0 && i < m ==> !#[trigger] fits_over(part@, with@, i),
            forall|i: int| 0 <= i < at ==> !#[trigger] fits_over(part@, with@, i),
        decreases m - at,
    {
        if fits(&own, &other, 0, at) {
            assert(fits_over(part@, with@, at as int));
            return false;
        }
        at += 1;
    }
    true
}

/// Whether `part` from `d` on agrees with `with` from `at` on, where they meet; one of
/// the two offsets is nothing.
fn fits(part: &Vec<char>, with: &Vec<char>, d: usize, at: usize) -> (result: bool)
    requires
        d <= part@.len(),
        at <= with@.len(),
        d == 0 || at == 0,
    ensures
        result == fits_over(part@, with@, at - d),
{
    let mut k: usize = 0;
    while k < part.len() - d && k < with.len() - at
        invariant
            d <= part@.len(),
            at <= with@.len(),
            d == 0 || at == 0,
            k <= part@.len() - d,
            k <= with@.len() - at,
            forall|j: int| d <= j < d + k ==> #[trigger] part@[j] == with@[at - d + j],
        decreases part@.len() - d - k,
    {
        if part[d + k] != with[at + k] {
            assert(part@[d + k] != with@[(at - d) + (d + k)]);
            return false;
        }
        k += 1;
    }
    true
}

/// The position behind the quote that closes the token opened at `start`.
fn closing(chars: &Vec<char>, start: usize) -> (result: Option<usize>)
    requires
        start <= chars@.len(),
    ensures
        match result {
            Some(end) => token_end(chars@, start + 1) == Some(end as int) && start < end
                <= chars@.len(),
            None => token_end(chars@, start + 1) is None,
        },
{
    if start >= chars.len() {
        return None;
    }
    let mut i: usize = start + 1;
    while i < chars.len()
        invariant
            start < i <= chars@.len(),
            token_end(chars@, i as int) == token_end(chars@, start + 1),
        decreases chars@.len() - i,
    {
        if chars[i] == '\\' {
            if chars.len() - i < 2 {
                assert(token_end(chars@, i + 2) is None);
                return None;
            }
            i += 2;
        } else if chars[i] == '"' {
            return Some(i + 1);
        } else {
            i += 1;
        }
    }
    None
}

proof fn longest_first_members(keys: Seq<Seq<char>>)
    ensures
        forall|i: int|
            0 <= i < longest_first(keys).len() ==> (#[trigger] longest_first(keys)[i]).len() > 0,
{
    assert forall|i: int| 0 <= i < longest_first(keys).len() implies (#[trigger] longest_first(
        keys,
    )[i]).len() > 0 by {
        longest_first_holds(keys, longest_first(keys)[i]);
    }
}

proof fn hidden_items_index(keys: Seq<Seq<char>>, items: Seq<JsonModel>, n: nat)
    requires
        n <= items.len(),
    ensures
        hidden_items(keys, items, n).len() == n,
        forall|i: int|
            0 <= i < n ==> #[trigger] hidden_items(keys, items, n)[i] == hidden_json(keys, items[i]),
    decreases n,
{
    if n > 0 {
        hidden_items_index(keys, items, (n - 1) as nat);
    }
}

/// Sets a field of an object by its name.
fn set_field(fields: &mut Vec<(String, Json)>, name: String, value: Json)
    ensures
        fields_model(*final(fields), final(fields)@.len()) == with_field(
            fields_model(*old(fields), old(fields)@.len()),
            name@,
            model(value),
        ),
{
    let ghost said = fields_model(*fields, fields@.len());
    let ghost original = *fields;
    proof {
        fields_model_index(*fields, fields@.len());
    }
    let mut i: usize = 0;
    while i < fields.len() && !(fields[i].0 == name)
        invariant
            i <= fields@.len(),
            *fields == original,
            said.len() == fields@.len(),
            forall|k: int|
                0 <= k < said.len() ==> #[trigger] said[k] == (fields@[k].0@, model(fields@[k].1)),
            forall|k: int| 0 <= k < i ==> (#[trigger] said[k]).0 != name@,
        decreases fields@.len() - i,
    {
        assert(said[i as int].0 != name@);
        i += 1;
    }
    let ghost shown = name@;
    let ghost json = value;
    if i < fields.len() {
        assert(said[i as int].0 == name@);
        fields.set(i, (name, value));
        proof {
            with_field_found(said, shown, model(json), i as int);
            fields_model_index(*fields, fields@.len());
            assert(fields_model(*fields, fields@.len()) =~= said.update(
                i as int,
                (shown, model(json)),
            ));
        }
    } else {
        fields.push((name, value));
        proof {
            with_field_missing(said, shown, model(json));
            fields_model_index(*fields, fields@.len());
            assert(fields_model(*fields, fields@.len()) =~= said.push((shown, model(json))));
        }
    }
}

proof fn with_field_found(
    fields: Seq<(Seq<char>, JsonModel)>,
    name: Seq<char>,
    value: JsonModel,
    at: int,
)
    requires
        0 <= at < fields.len(),
        fields[at].0 == name,
        forall|k: int| 0 <= k < at ==> (#[trigger] fields[k]).0 != name,
    ensures
        with_field(fields, name, value) == fields.update(at, (name, value)),
    decreases fields.len(),
{
    if at == 0 {
        assert(fields.update(0, (name, value)) =~= seq![(name, value)] + fields.skip(1));
    } else {
        let rest = fields.skip(1);
        assert forall|k: int| 0 <= k < at - 1 implies (#[trigger] rest[k]).0 != name by {
            assert(rest[k] == fields[k + 1]);
        }
        with_field_found(rest, name, value, at - 1);
        assert(fields.update(at, (name, value)) =~= seq![fields[0]] + rest.update(
            at - 1,
            (name, value),
        ));
    }
}

proof fn with_field_missing(
    fields: Seq<(Seq<char>, JsonModel)>,
    name: Seq<char>,
    value: JsonModel,
)
    requires
        forall|k: int| 0 <= k < fields.len() ==> (#[trigger] fields[k]).0 != name,
    ensures
        with_field(fields, name, value) == fields.push((name, value)),
    decreases fields.len(),
{
    if fields.len() > 0 {
        let rest = fields.skip(1);
        assert forall|k: int| 0 <= k < rest.len() implies (#[trigger] rest[k]).0 != name by {
            assert(rest[k] == fields[k + 1]);
        }
        with_field_missing(rest, name, value);
        assert(fields.push((name, value)) =~= seq![fields[0]] + rest.push((name, value)));
    } else {
        assert(fields.push((name, value)) =~= seq![(name, value)]);
    }
}

/// The API key of one service in a request, where it is a text and not empty.
pub open spec fn service_key(request: JsonModel, service: Seq<char>) -> Option<Seq<char>> {
    match field_model(request, "config"@) {
        Some(config) => match field_model(config, service) {
            Some(settings) => match field_model(settings, "api_key"@) {
                Some(JsonModel::Text(key)) => if key.len() > 0 {
                    Some(key)
                } else {
                    None
                },
                _ => None,
            },
            None => None,
        },
        None => None,
    }
}

/// The credentials of a request, in the order in which they are looked up.
pub open spec fn request_keys(request: JsonModel) -> Seq<Seq<char>> {
    with_key(with_key(Seq::empty(), request, "llm"@), request, "asr_api"@)
}

pub open spec fn with_key(
    keys: Seq<Seq<char>>,
    request: JsonModel,
    service: Seq<char>,
) -> Seq<Seq<char>> {
    match service_key(request, service) {
        Some(key) => keys.push(key),
        None => keys,
    }
}

fn add_key(keys: &mut Vec<String>, request: &Json, service: &str)
    ensures
        texts(final(keys)@) == with_key(texts(old(keys)@), model(*request), service@),
{
    if let Some(config) = field(request, "config") {
        if let Some(settings) = field(config, service) {
            if let Some(Json::Text(key)) = field(settings, "api_key") {
                if !key.as_str().is_empty() {
                    let ghost before = texts(keys@);
                    keys.push(key.clone());
                    assert(texts(keys@) =~= before.push(key@));
                }
            }
        }
    }
}

// ----------------------------------------------------------------------- laws

proof fn placed_holds(keys: Seq<Seq<char>>, key: Seq<char>, other: Seq<char>)
    ensures
        placed(keys, key).contains(other) <==> other == key || keys.contains(other),
        placed(keys, key).len() == keys.len() + 1,
    decreases keys.len(),
{
    let result = placed(keys, key);
    if keys.len() == 0 {
        assert(result[0] == key);
    } else if byte_length(keys[0]) < byte_length(key) {
        assert(result[0] == key);
        assert(result.skip(1) =~= keys);
        assert forall|i: int| 0 <= i < keys.len() implies #[trigger] keys[i] == result[i + 1] by {}
        if keys.contains(other) {
            let i = keys.index_of(other);
            assert(result[i + 1] == other);
        }
        if result.contains(other) && other != key {
            let i = result.index_of(other);
            assert(keys[i - 1] == other);
        }
    } else {
        let rest = keys.skip(1);
        placed_holds(rest, key, other);
        let tail = placed(rest, key);
        if result.contains(other) {
            let i = result.index_of(other);
            if i > 0 {
                assert(tail[i - 1] == other);
                if rest.contains(other) {
                    let j = rest.index_of(other);
                    assert(keys[j + 1] == other);
                }
            } else {
                assert(keys[0] == other);
            }
        }
        if other == key || keys.contains(other) {
            if keys.contains(other) {
                let j = keys.index_of(other);
                if j == 0 {
                    assert(result[0] == other);
                } else {
                    assert(rest[j - 1] == other);
                }
            }
            if tail.contains(other) {
                let i = tail.index_of(other);
                assert(result[i + 1] == other);
            }
        }
    }
}

/// Every key that is not empty has its turn, and nothing else has one.
pub proof fn longest_first_holds(keys: Seq<Seq<char>>, key: Seq<char>)
    ensures
        longest_first(keys).contains(key) <==> key.len() > 0 && keys.contains(key),
    decreases keys.len(),
{
    if keys.len() > 0 {
        let rest = keys.drop_last();
        longest_first_holds(rest, key);
        if keys.last().len() > 0 {
            placed_holds(longest_first(rest), keys.last(), key);
        }
        if keys.contains(key) {
            let i = keys.index_of(key);
            if i < rest.len() {
                assert(rest[i] == key);
            }
        }
        if rest.contains(key) {
            let i = rest.index_of(key);
            assert(keys[i] == key);
        }
        assert(keys[keys.len() - 1] == keys.last());
    }
}

/// No key is handled before one that is longer, so that a credential that begins
/// another one cannot spoil it.
pub proof fn longest_first_is_ordered(keys: Seq<Seq<char>>)
    ensures
        forall|i: int, j: int|
            0 <= i < j < longest_first(keys).len() ==> byte_length(#[trigger] longest_first(keys)[i])
                >= byte_length(#[trigger] longest_first(keys)[j]),
    decreases keys.len(),
{
    if keys.len() > 0 {
        longest_first_is_ordered(keys.drop_last());
        if keys.last().len() > 0 {
            placed_is_ordered(longest_first(keys.drop_last()), keys.last());
        }
    }
}

proof fn placed_is_ordered(keys: Seq<Seq<char>>, key: Seq<char>)
    requires
        forall|i: int, j: int|
            0 <= i < j < keys.len() ==> byte_length(#[trigger] keys[i]) >= byte_length(
                #[trigger] keys[j],
            ),
    ensures
        forall|i: int, j: int|
            0 <= i < j < placed(keys, key).len() ==> byte_length(#[trigger] placed(keys, key)[i])
                >= byte_length(#[trigger] placed(keys, key)[j]),
    decreases keys.len(),
{
    if keys.len() > 0 {
        if byte_length(keys[0]) < byte_length(key) {
            assert forall|i: int, j: int| 0 <= i < j < placed(keys, key).len() implies byte_length(
                #[trigger] placed(keys, key)[i],
            ) >= byte_length(#[trigger] placed(keys, key)[j]) by {
                assert(placed(keys, key)[j] == keys[j - 1]);
                if i > 0 {
                    assert(placed(keys, key)[i] == keys[i - 1]);
                } else if j > 1 {
                    assert(byte_length(keys[0]) >= byte_length(keys[j - 1]));
                }
            }
        } else {
            let rest = keys.skip(1);
            assert forall|i: int, j: int| 0 <= i < j < rest.len() implies byte_length(
                #[trigger] rest[i],
            ) >= byte_length(#[trigger] rest[j]) by {
                assert(rest[i] == keys[i + 1] && rest[j] == keys[j + 1]);
            }
            placed_is_ordered(rest, key);
            let tail = placed(rest, key);
            assert forall|i: int, j: int| 0 <= i < j < placed(keys, key).len() implies byte_length(
                #[trigger] placed(keys, key)[i],
            ) >= byte_length(#[trigger] placed(keys, key)[j]) by {
                assert(placed(keys, key)[j] == tail[j - 1]);
                if i > 0 {
                    assert(placed(keys, key)[i] == tail[i - 1]);
                } else {
                    let other = tail[j - 1];
                    assert(tail.contains(other));
                    placed_holds(rest, key, other);
                    if rest.contains(other) {
                        let k = rest.index_of(other);
                        assert(rest[k] == keys[k + 1]);
                    }
                }
            }
        }
    }
}

proof fn marker_is_not_empty()
    ensures
        marker().len() > 0,
{
    reveal_strlit("[已隐藏密钥]");
}

proof fn without_key_brings_nothing(s: Seq<char>, other: Seq<char>, key: Seq<char>)
    requires
        key.len() > 0,
        apart(key, marker()),
        !holds(s, key),
    ensures
        !holds(without_key(s, other), key),
{
    marker_is_not_empty();
    let once = replaced(s, other, marker());
    if holds(without_key(s, other), key) {
        replaced_brings_nothing(once, escaped(other), marker(), key);
        replaced_brings_nothing(s, other, marker(), key);
    }
}

proof fn without_keys_brings_nothing(s: Seq<char>, keys: Seq<Seq<char>>, key: Seq<char>)
    requires
        key.len() > 0,
        apart(key, marker()),
        !holds(s, key) || keys.contains(key),
    ensures
        !holds(without_keys(s, keys), key),
    decreases keys.len(),
{
    if keys.len() > 0 {
        let first = keys[0];
        let next = without_key(s, first);
        if !holds(s, key) {
            without_key_brings_nothing(s, first, key);
        } else if first == key {
            marker_is_not_empty();
            let once = replaced(s, key, marker());
            if holds(once, key) {
                replaced_brings_nothing(s, key, marker(), key);
                assert(s.len() == 0);
                assert(once.len() == 0);
            }
            if holds(next, key) {
                replaced_brings_nothing(once, escaped(key), marker(), key);
            }
        } else {
            let i = keys.index_of(key);
            assert(keys.skip(1)[i - 1] == key);
        }
        without_keys_brings_nothing(next, keys.skip(1), key);
    }
}

/// A hidden text holds none of the keys. A key that can overlap the marker is left
/// out: with what stands beside it, the marker may spell such a key.
pub proof fn no_key_remains(keys: Seq<Seq<char>>, s: Seq<char>, key: Seq<char>)
    requires
        keys.contains(key),
        key.len() > 0,
        apart(key, marker()),
    ensures
        !holds(hidden(keys, s), key),
{
    longest_first_holds(keys, key);
    without_keys_brings_nothing(s, longest_first(keys), key);
}

proof fn without_absent_keys(s: Seq<char>, keys: Seq<Seq<char>>)
    requires
        forall|i: int|
            0 <= i < keys.len() ==> !holds(s, #[trigger] keys[i]) && (escaped(keys[i]).len()
                == 0 || !holds(s, escaped(keys[i]))),
    ensures
        without_keys(s, keys) == s,
    decreases keys.len(),
{
    if keys.len() > 0 {
        replaced_absent(s, keys[0], marker());
        if escaped(keys[0]).len() > 0 {
            replaced_absent(s, escaped(keys[0]), marker());
        }
        assert forall|i: int| 0 <= i < keys.skip(1).len() implies !holds(
            s,
            #[trigger] keys.skip(1)[i],
        ) && (escaped(keys.skip(1)[i]).len() == 0 || !holds(
            s,
            escaped(keys.skip(1)[i]),
        )) by {
            assert(keys.skip(1)[i] == keys[i + 1]);
        }
        without_absent_keys(s, keys.skip(1));
    }
}

/// A text that holds no key, plain or as JSON spells it, stays as it is.
pub proof fn other_text_is_kept(keys: Seq<Seq<char>>, s: Seq<char>)
    requires
        forall|i: int|
            0 <= i < keys.len() && (#[trigger] keys[i]).len() > 0 ==> !holds(s, keys[i]) && (
            escaped(keys[i]).len() == 0 || !holds(s, escaped(keys[i]))),
    ensures
        hidden(keys, s) == s,
{
    let ordered = longest_first(keys);
    assert forall|i: int| 0 <= i < ordered.len() implies !holds(s, #[trigger] ordered[i]) && (
    escaped(ordered[i]).len() == 0 || !holds(s, escaped(ordered[i]))) by {
        assert(ordered.contains(ordered[i]));
        longest_first_holds(keys, ordered[i]);
        let k = keys.index_of(ordered[i]);
        assert(keys[k] == ordered[i]);
    }
    without_absent_keys(s, ordered);
}

// --------------------------------------------------------------------- whole lines

/// A key that stands in the text that JSON spells nowhere but where it stands in the
/// text itself: it has neither quotes nor backslashes, and begins with a character
/// that follows no backslash in an escape.
pub open spec fn outside_escapes(key: Seq<char>) -> bool {
    &&& key.len() > 0
    &&& lacks(key, '"')
    &&& lacks(key, '\\')
    &&& !in_escape(key[0])
}

/// The character stands behind the backslash of an escape.
pub open spec fn in_escape(c: char) -> bool {
    ||| c == 'b' || c == 'f' || c == 'n' || c == 'r' || c == 't' || c == 'u'
    ||| '0' <= c <= '9'
    ||| 'a' <= c <= 'f'
}

proof fn escape_is_known(c: char)
    ensures
        escape_of(c).len() >= 1,
        escape_of(c).len() == 1 ==> escape_of(c) == seq![c],
        escape_of(c).len() > 1 ==> escape_of(c)[0] == '\\' && forall|k: int|
            0 <= k < escape_of(c).len() ==> (#[trigger] escape_of(c)[k] == '\\' || escape_of(c)[k]
                == '"' || in_escape(escape_of(c)[k])),
{
    reveal(escape_of);
}

proof fn unescaped_beginning(s: Seq<char>, key: Seq<char>)
    requires
        lacks(key, '\\'),
        begins(escaped(s), key),
    ensures
        begins(s, key),
    decreases s.len(),
{
    let e = escaped(s);
    if key.len() == 0 {
        assert(s.subrange(0, 0) =~= key);
    } else {
        assert(e.subrange(0, key.len() as int)[0] == key[0]);
        assert(s.len() > 0);
        let first = escape_of(s[0]);
        escape_is_known(s[0]);
        if first.len() > 1 {
            assert(e[0] == '\\');
        } else {
            let rest = escaped(s.skip(1));
            let tail = key.skip(1);
            assert(rest.subrange(0, tail.len() as int) =~= e.subrange(0, key.len() as int).skip(1));
            assert forall|i: int| 0 <= i < tail.len() implies #[trigger] tail[i] != '\\' by {
                assert(tail[i] == key[i + 1]);
            }
            unescaped_beginning(s.skip(1), tail);
            assert(s.subrange(0, key.len() as int) =~= seq![s[0]] + s.skip(1).subrange(
                0,
                tail.len() as int,
            ));
            assert(key =~= seq![key[0]] + tail);
        }
    }
}

/// Spelling a text in JSON brings forth no such key.
proof fn escaping_brings_nothing(s: Seq<char>, key: Seq<char>)
    requires
        outside_escapes(key),
        holds(escaped(s), key),
    ensures
        holds(s, key),
    decreases s.len(),
{
    let e = escaped(s);
    let at = choose|i: int| #[trigger] occurs_at(e, key, i);
    assert(e.subrange(at, at + key.len())[0] == key[0]);
    assert(s.len() > 0);
    let first = escape_of(s[0]);
    let rest = escaped(s.skip(1));
    escape_is_known(s[0]);
    if at >= first.len() {
        let n = first.len() as int;
        assert(rest.subrange(at - n, at - n + key.len()) =~= e.subrange(at, at + key.len()));
        assert(occurs_at(rest, key, at - n));
        escaping_brings_nothing(s.skip(1), key);
        holds_in_rest(s, key, 1);
    } else if first.len() > 1 {
        assert(e[at] == first[at]);
    } else {
        assert(at == 0);
        unescaped_beginning(s, key);
        assert(occurs_at(s, key, 0));
    }
}

/// A key that lacks a character cannot stand across it.
proof fn nothing_crosses(x: Seq<char>, c: char, y: Seq<char>, key: Seq<char>)
    requires
        key.len() > 0,
        lacks(key, c),
        !holds(x, key),
        !holds(y, key),
    ensures
        !holds(x + seq![c] + y, key),
{
    let all = x + seq![c] + y;
    if holds(all, key) {
        let at = choose|i: int| #[trigger] occurs_at(all, key, i);
        let end = at + key.len();
        let n = x.len() as int;
        if end <= n {
            assert(x.subrange(at, end) =~= all.subrange(at, end));
            assert(occurs_at(x, key, at));
        } else if at > n {
            assert(y.subrange(at - n - 1, end - n - 1) =~= all.subrange(at, end));
            assert(occurs_at(y, key, at - n - 1));
        } else {
            assert(all.subrange(at, end)[n - at] == c);
            assert(key[n - at] == c);
        }
    }
}

proof fn nothing_in_nothing(key: Seq<char>)
    requires
        key.len() > 0,
    ensures
        !holds(Seq::<char>::empty(), key),
{
}

/// A plain piece, a quoted token and the rest hold no key together where none of them
/// does alone.
proof fn pieces_hold_nothing(plain: Seq<char>, inner: Seq<char>, rest: Seq<char>, key: Seq<char>)
    requires
        key.len() > 0,
        lacks(key, '"'),
        !holds(plain, key),
        !holds(inner, key),
        !holds(rest, key),
    ensures
        !holds(plain + (seq!['"'] + inner + seq!['"']) + rest, key),
{
    nothing_crosses(inner, '"', rest, key);
    nothing_crosses(plain, '"', inner + seq!['"'] + rest, key);
    assert(plain + (seq!['"'] + inner + seq!['"']) + rest =~= plain + seq!['"'] + (inner + seq!['"']
        + rest));
}

proof fn tokens_hold_no_key(
    keys: Seq<Seq<char>>,
    s: Seq<char>,
    copied: int,
    cursor: int,
    key: Seq<char>,
)
    requires
        keys.contains(key),
        apart(key, marker()),
        outside_escapes(key),
    ensures
        !holds(hidden_tokens(keys, s, copied, cursor), key),
    decreases s.len() - cursor,
{
    let start = cursor + first_index(s.skip(cursor), '"');
    match token_end(s, start + 1) {
        Some(end) if cursor < end <= s.len() => match json_parsed(s.subrange(start, end)) {
            Some(JsonModel::Text(token)) => {
                let plain = s.subrange(copied, start);
                let shown = hidden(keys, token);
                no_key_remains(keys, plain, key);
                no_key_remains(keys, token, key);
                if holds(escaped(shown), key) {
                    escaping_brings_nothing(shown, key);
                }
                tokens_hold_no_key(keys, s, end, end, key);
                pieces_hold_nothing(
                    hidden(keys, plain),
                    escaped(shown),
                    hidden_tokens(keys, s, end, end),
                    key,
                );
            },
            _ => tokens_hold_no_key(keys, s, copied, end, key),
        },
        _ => no_key_remains(keys, s.skip(copied), key),
    }
}

/// A line of output that is no JSON document holds none of the keys once it is
/// hidden. Left out are keys that can overlap the marker, that hold a quote or a
/// backslash, or that an escape can spell with what follows it.
pub proof fn no_key_remains_in_a_line(keys: Seq<Seq<char>>, line: Seq<char>, key: Seq<char>)
    requires
        keys.contains(key),
        apart(key, marker()),
        outside_escapes(key),
        json_parsed(line) is None,
    ensures
        !holds(hidden_line(keys, line), key),
{
    tokens_hold_no_key(keys, line, 0, 0, key);
    no_key_remains(keys, hidden_runs(keys, bounded(line), 0), key);
    marker_holds_nothing(key);
}

/// A line without quotes that is no JSON document holds none of the keys once it is
/// hidden; nothing but an overlap with the marker is left out.
pub proof fn no_key_remains_in_a_plain_line(keys: Seq<Seq<char>>, line: Seq<char>, key: Seq<char>)
    requires
        keys.contains(key),
        key.len() > 0,
        apart(key, marker()),
        json_parsed(line) is None,
        lacks(line, '"'),
    ensures
        !holds(hidden_line(keys, line), key),
{
    first_index_within(line, '"');
    let n = first_index(line, '"');
    assert(line.skip(0) =~= line);
    if n < line.len() {
        assert(line[n] == '"');
    }
    assert(token_end(line, n + 1) is None);
    no_key_remains(keys, line, key);
    no_key_remains(keys, hidden_runs(keys, bounded(line), 0), key);
    marker_holds_nothing(key);
}

/// A secret is never retained only because its spelling is escaped: no run of a shown
/// line, from any quote or from its beginning to the next quote or to its end, is a
/// JSON text that says a key. Left out are keys that can overlap the marker, and the
/// line that is nothing but the marker.
pub proof fn no_run_says_a_key(keys: Seq<Seq<char>>, line: Seq<char>, key: Seq<char>, i: int)
    requires
        keys.contains(key),
        key.len() > 0,
        apart(key, marker()),
        json_parsed(line) is None,
        hidden_line(keys, line) != marker(),
        0 <= i < bounded(hidden_line(keys, line)).len(),
        bounded(hidden_line(keys, line))[i] == '"',
    ensures
        run_text(bounded(hidden_line(keys, line)), i) matches Some(text) ==> !holds(text, key),
{
    let k = keys.index_of(key);
    assert(keys[k] == key);
    assert(says_no_key(keys, hidden_line(keys, line)));
}

proof fn marker_holds_nothing(key: Seq<char>)
    requires
        key.len() > 0,
        apart(key, marker()),
    ensures
        !holds(marker(), key),
{
    if holds(marker(), key) {
        let at = choose|i: int| #[trigger] occurs_at(marker(), key, i);
        assert forall|k: int| 0 <= k < key.len() && 0 <= at + k < marker().len() implies
            #[trigger] key[k] == marker()[at + k] by {
            assert(marker().subrange(at, at + key.len())[k] == key[k]);
        }
        assert(fits_over(key, marker(), at));
    }
}

/// No name of a field holds a key once a document is hidden.
pub proof fn no_key_remains_in_field_names(
    keys: Seq<Seq<char>>,
    fields: Seq<(Seq<char>, JsonModel)>,
    n: nat,
    key: Seq<char>,
    i: int,
)
    requires
        keys.contains(key),
        key.len() > 0,
        apart(key, marker()),
        0 <= i < hidden_fields(keys, fields, n).len(),
    ensures
        !holds(hidden_fields(keys, fields, n)[i].0, key),
    decreases n,
{
    if n > 0 && n <= fields.len() {
        let m = (n - 1) as nat;
        let before = hidden_fields(keys, fields, m);
        let name = hidden(keys, fields[n - 1].0);
        let value = hidden_json(keys, fields[n - 1].1);
        no_key_remains(keys, fields[n - 1].0, key);
        assert forall|j: int| 0 <= j < before.len() implies !holds(#[trigger] before[j].0, key) by {
            no_key_remains_in_field_names(keys, fields, m, key, j);
        }
        names_with_field(before, name, value, i);
    }
}

proof fn names_with_field(
    fields: Seq<(Seq<char>, JsonModel)>,
    name: Seq<char>,
    value: JsonModel,
    i: int,
)
    requires
        0 <= i < with_field(fields, name, value).len(),
    ensures
        ({
            let own = with_field(fields, name, value)[i].0;
            own == name || (i < fields.len() && own == fields[i].0)
        }),
    decreases fields.len(),
{
    if fields.len() > 0 && fields[0].0 != name && i > 0 {
        names_with_field(fields.skip(1), name, value, i - 1);
    }
}

/// `text` is one of the texts of a document, at any depth; names do not count.
pub open spec fn has_text(json: JsonModel, text: Seq<char>) -> bool
    decreases json, 0nat,
{
    match json {
        JsonModel::Text(own) => own == text,
        JsonModel::List(items) => item_has_text(items, items.len(), text),
        JsonModel::Object(fields) => field_has_text(fields, fields.len(), text),
        _ => false,
    }
}

/// `text` is one of the texts of the first `n` items.
pub open spec fn item_has_text(items: Seq<JsonModel>, n: nat, text: Seq<char>) -> bool
    decreases items, n,
{
    n > 0 && n <= items.len() && (item_has_text(items, (n - 1) as nat, text) || has_text(
        items[n - 1],
        text,
    ))
}

/// `text` is one of the texts of the first `n` fields.
pub open spec fn field_has_text(
    fields: Seq<(Seq<char>, JsonModel)>,
    n: nat,
    text: Seq<char>,
) -> bool
    decreases fields, n,
{
    n > 0 && n <= fields.len() && (field_has_text(fields, (n - 1) as nat, text) || has_text(
        fields[n - 1].1,
        text,
    ))
}

/// Every text of a hidden document, at any depth, is a text of the document with its
/// keys hidden as in a line of output; where that was no document itself, it holds
/// none of the keys, and no run of it says one. Left out are the keys that are left
/// out of a line, and of the runs the text that is nothing but the marker.
pub proof fn no_key_remains_in_a_document(
    keys: Seq<Seq<char>>,
    json: JsonModel,
    key: Seq<char>,
    shown: Seq<char>,
)
    requires
        keys.contains(key),
        key.len() > 0,
        apart(key, marker()),
        has_text(hidden_json(keys, json), shown),
    ensures
        exists|text: Seq<char>|
            {
                &&& #[trigger] has_text(json, text)
                &&& shown == hidden_line(keys, text)
                &&& json_parsed(text) is None ==> {
                    &&& outside_escapes(key) ==> !holds(shown, key)
                    &&& lacks(text, '"') ==> !holds(shown, key)
                    &&& shown == marker() || says_no_key(keys, shown)
                }
            },
{
    let text = text_behind(keys, json, shown);
    if json_parsed(text) is None {
        if outside_escapes(key) {
            no_key_remains_in_a_line(keys, text, key);
        }
        if lacks(text, '"') {
            no_key_remains_in_a_plain_line(keys, text, key);
        }
    }
}

proof fn text_behind(keys: Seq<Seq<char>>, json: JsonModel, shown: Seq<char>) -> (text: Seq<char>)
    requires
        has_text(hidden_json(keys, json), shown),
    ensures
        has_text(json, text),
        shown == hidden_line(keys, text),
    decreases json, 0nat,
{
    match json {
        JsonModel::Text(own) => own,
        JsonModel::List(items) => {
            let n = items.len();
            hidden_items_index(keys, items, n);
            text_behind_item(keys, items, n, shown)
        },
        JsonModel::Object(fields) => text_behind_field(
            keys,
            fields,
            fields.len(),
            hidden_fields(keys, fields, fields.len()).len(),
            shown,
        ),
        _ => Seq::empty(),
    }
}

proof fn text_behind_item(
    keys: Seq<Seq<char>>,
    items: Seq<JsonModel>,
    n: nat,
    shown: Seq<char>,
) -> (text: Seq<char>)
    requires
        n <= items.len(),
        item_has_text(hidden_items(keys, items, items.len()), n, shown),
    ensures
        item_has_text(items, n, text),
        shown == hidden_line(keys, text),
    decreases items, n,
{
    let all = hidden_items(keys, items, items.len());
    hidden_items_index(keys, items, items.len());
    if item_has_text(all, (n - 1) as nat, shown) {
        text_behind_item(keys, items, (n - 1) as nat, shown)
    } else {
        text_behind(keys, items[n - 1], shown)
    }
}

proof fn text_behind_field(
    keys: Seq<Seq<char>>,
    fields: Seq<(Seq<char>, JsonModel)>,
    n: nat,
    m: nat,
    shown: Seq<char>,
) -> (text: Seq<char>)
    requires
        n <= fields.len(),
        field_has_text(hidden_fields(keys, fields, n), m, shown),
    ensures
        field_has_text(fields, n, text),
        shown == hidden_line(keys, text),
    decreases fields, n,
{
    let all = hidden_fields(keys, fields, n);
    let k = field_with_text(all, m, shown);
    let before = hidden_fields(keys, fields, (n - 1) as nat);
    let name = hidden(keys, fields[n - 1].0);
    let value = hidden_json(keys, fields[n - 1].1);
    values_with_field(before, name, value, k);
    if all[k].1 == value {
        text_behind(keys, fields[n - 1].1, shown)
    } else {
        field_among(before, k, shown);
        text_behind_field(keys, fields, (n - 1) as nat, before.len(), shown)
    }
}

proof fn field_with_text(fields: Seq<(Seq<char>, JsonModel)>, m: nat, text: Seq<char>) -> (k: int)
    requires
        field_has_text(fields, m, text),
    ensures
        0 <= k < m <= fields.len(),
        has_text(fields[k].1, text),
    decreases m,
{
    if has_text(fields[m - 1].1, text) {
        m - 1
    } else {
        field_with_text(fields, (m - 1) as nat, text)
    }
}

proof fn field_among(fields: Seq<(Seq<char>, JsonModel)>, k: int, text: Seq<char>)
    requires
        0 <= k < fields.len(),
        has_text(fields[k].1, text),
    ensures
        field_has_text(fields, fields.len(), text),
{
    field_among_first(fields, k, text, fields.len());
}

proof fn field_among_first(
    fields: Seq<(Seq<char>, JsonModel)>,
    k: int,
    text: Seq<char>,
    n: nat,
)
    requires
        0 <= k < n <= fields.len(),
        has_text(fields[k].1, text),
    ensures
        field_has_text(fields, n, text),
    decreases n,
{
    if k < n - 1 {
        field_among_first(fields, k, text, (n - 1) as nat);
    }
}

proof fn values_with_field(
    fields: Seq<(Seq<char>, JsonModel)>,
    name: Seq<char>,
    value: JsonModel,
    i: int,
)
    requires
        0 <= i < with_field(fields, name, value).len(),
    ensures
        ({
            let own = with_field(fields, name, value)[i].1;
            own == value || (i < fields.len() && own == fields[i].1)
        }),
    decreases fields.len(),
{
    if fields.len() > 0 && fields[0].0 != name && i > 0 {
        values_with_field(fields.skip(1), name, value, i - 1);
    }
}

// ------------------------------------------------------------ lines without escapes

/// No key stands in `s`, apart from those that hold a quote or can overlap the marker.
pub open spec fn is_clean(keys: Seq<Seq<char>>, s: Seq<char>) -> bool {
    forall|key: Seq<char>|
        keys.contains(key) && key.len() > 0 && apart(key, marker()) && lacks(key, '"')
            ==> !#[trigger] holds(s, key)
}

/// No character of `s` needs an escape.
pub open spec fn needs_no_escape(s: Seq<char>) -> bool {
    forall|i: int| 0 <= i < s.len() ==> escape_of(#[trigger] s[i]) == seq![s[i]]
}

proof fn escaping_lengthens(s: Seq<char>)
    ensures
        escaped(s).len() >= s.len(),
        escaped(s) == s ==> needs_no_escape(s),
    decreases s.len(),
{
    if s.len() > 0 {
        let rest = s.skip(1);
        escaping_lengthens(rest);
        escape_is_known(s[0]);
        if escaped(s) == s {
            assert(escape_of(s[0]).len() == 1);
            assert(escape_of(s[0]) =~= seq![s[0]]);
            assert(escaped(rest) =~= escaped(s).skip(1));
            assert forall|i: int| 0 <= i < s.len() implies escape_of(#[trigger] s[i]) == seq![
                s[i],
            ] by {
                if i > 0 {
                    assert(rest[i - 1] == s[i]);
                }
            }
        }
    }
}

proof fn escaping_changes_nothing(s: Seq<char>)
    requires
        needs_no_escape(s),
    ensures
        escaped(s) == s,
    decreases s.len(),
{
    if s.len() > 0 {
        let rest = s.skip(1);
        assert forall|i: int| 0 <= i < rest.len() implies escape_of(#[trigger] rest[i]) == seq![
            rest[i],
        ] by {
            assert(rest[i] == s[i + 1]);
        }
        escaping_changes_nothing(rest);
        assert(escaped(s) =~= s);
    } else {
        assert(escaped(s) =~= s);
    }
}

proof fn replacing_needs_no_escape(s: Seq<char>, part: Seq<char>)
    requires
        needs_no_escape(s),
    ensures
        needs_no_escape(replaced(s, part, marker())),
    decreases s.len(),
{
    marker_needs_no_escape();
    if part.len() > 0 && s.len() > 0 {
        let n = if begins(s, part) {
            part.len() as int
        } else {
            1
        };
        let rest = s.skip(n);
        assert forall|i: int| 0 <= i < rest.len() implies escape_of(#[trigger] rest[i]) == seq![
            rest[i],
        ] by {
            assert(rest[i] == s[i + n]);
        }
        replacing_needs_no_escape(rest, part);
        let front = if begins(s, part) {
            marker()
        } else {
            seq![s[0]]
        };
        let tail = replaced(rest, part, marker());
        let all = replaced(s, part, marker());
        assert(all == front + tail);
        assert forall|i: int| 0 <= i < all.len() implies escape_of(#[trigger] all[i]) == seq![
            all[i],
        ] by {
            if i < front.len() {
                assert(all[i] == front[i]);
                assert(escape_of(s[0]) == seq![s[0]]);
            } else {
                assert(all[i] == tail[i - front.len()]);
            }
        }
    }
}

proof fn marker_needs_no_escape()
    ensures
        needs_no_escape(marker()),
{
    reveal(escape_of);
    reveal_strlit("[已隐藏密钥]");
}

proof fn hiding_needs_no_escape(s: Seq<char>, keys: Seq<Seq<char>>)
    requires
        needs_no_escape(s),
    ensures
        needs_no_escape(without_keys(s, keys)),
    decreases keys.len(),
{
    if keys.len() > 0 {
        replacing_needs_no_escape(s, keys[0]);
        replacing_needs_no_escape(replaced(s, keys[0], marker()), escaped(keys[0]));
        hiding_needs_no_escape(without_key(s, keys[0]), keys.skip(1));
    }
}

/// What needs no escape needs none once it is hidden.
proof fn hidden_needs_no_escape(keys: Seq<Seq<char>>, s: Seq<char>)
    requires
        escaped(s) == s,
    ensures
        escaped(hidden(keys, s)) == hidden(keys, s),
{
    escaping_lengthens(s);
    hiding_needs_no_escape(s, longest_first(keys));
    escaping_changes_nothing(hidden(keys, s));
}

/// What is clean and ends with a quote stays clean when a hidden text follows.
proof fn clean_ends(keys: Seq<Seq<char>>, before: Seq<char>, plain: Seq<char>)
    requires
        is_clean(keys, before),
        before.len() == 0 || before.last() == '"',
    ensures
        is_clean(keys, before + hidden(keys, plain)),
{
    assert forall|key: Seq<char>|
        keys.contains(key) && key.len() > 0 && apart(key, marker()) && lacks(key, '"') implies
        !#[trigger] holds(before + hidden(keys, plain), key) by {
        let shown = hidden(keys, plain);
        no_key_remains(keys, plain, key);
        if before.len() == 0 {
            assert(before + shown =~= shown);
        } else {
            let front = before.drop_last();
            if holds(front, key) {
                let at = choose|i: int| #[trigger] occurs_at(front, key, i);
                assert(before.subrange(at, at + key.len()) =~= front.subrange(
                    at,
                    at + key.len(),
                ));
                assert(occurs_at(before, key, at));
                assert(holds(before, key));
            }
            nothing_crosses(front, '"', shown, key);
            assert(front + seq!['"'] + shown =~= before + shown);
        }
    }
}

/// What is clean stays clean when a hidden text and a hidden token follow.
proof fn clean_grows(keys: Seq<Seq<char>>, before: Seq<char>, plain: Seq<char>, token: Seq<char>)
    requires
        is_clean(keys, before),
        before.len() == 0 || before.last() == '"',
        escaped(hidden(keys, token)) == hidden(keys, token),
    ensures
        is_clean(keys, before + hidden(keys, plain) + quoted(hidden(keys, token))),
{
    clean_ends(keys, before, plain);
    let front = before + hidden(keys, plain);
    let inner = hidden(keys, token);
    assert forall|key: Seq<char>|
        keys.contains(key) && key.len() > 0 && apart(key, marker()) && lacks(key, '"') implies
        !#[trigger] holds(front + quoted(inner), key) by {
        no_key_remains(keys, token, key);
        assert(!holds(front, key));
        nothing_in_nothing(key);
        pieces_hold_nothing(front, inner, Seq::empty(), key);
        assert(front + (seq!['"'] + inner + seq!['"']) + Seq::<char>::empty() =~= front + quoted(
            inner,
        ));
    }
}

proof fn hidden_is_clean(keys: Seq<Seq<char>>, s: Seq<char>)
    ensures
        is_clean(keys, hidden(keys, s)),
{
    assert forall|key: Seq<char>|
        keys.contains(key) && key.len() > 0 && apart(key, marker()) && lacks(key, '"') implies
        !#[trigger] holds(hidden(keys, s), key) by {
        no_key_remains(keys, s, key);
    }
}

proof fn marker_is_clean(keys: Seq<Seq<char>>)
    ensures
        is_clean(keys, marker()),
{
    assert forall|key: Seq<char>|
        keys.contains(key) && key.len() > 0 && apart(key, marker()) && lacks(key, '"') implies
        !#[trigger] holds(marker(), key) by {
        marker_holds_nothing(key);
    }
}

// ------------------------------------------------------ what hiding leaves alone

/// `after` is what `before` says, but for its texts and the names of its fields:
/// nothing, a truth value and a number are the same, a list has as many items, and the
/// value of a field is found under its hidden name, unless a later field has that name
/// too. Nothing else is there.
pub open spec fn keeps_values(keys: Seq<Seq<char>>, before: JsonModel, after: JsonModel) -> bool
    decreases before, 0nat,
{
    match before {
        JsonModel::Null => after is Null,
        JsonModel::Bool(value) => after == JsonModel::Bool(value),
        JsonModel::Number(value) => after == JsonModel::Number(value),
        JsonModel::Text(_) => after is Text,
        JsonModel::List(items) => {
            &&& after is List
            &&& after->List_0.len() == items.len()
            &&& forall|i: int|
                0 <= i < items.len() ==> keeps_values(
                    keys,
                    #[trigger] items[i],
                    after->List_0[i],
                )
        },
        JsonModel::Object(fields) => {
            &&& after is Object
            &&& forall|i: int|
                0 <= i < fields.len() && #[trigger] counts(keys, fields, i) ==> is_among(
                    keys,
                    fields[i].0,
                    fields[i].1,
                    after->Object_0,
                )
            &&& forall|k: int|
                0 <= k < after->Object_0.len() ==> is_kept_from(
                    keys,
                    fields,
                    #[trigger] after->Object_0[k],
                )
        },
    }
}

/// One of the fields has the hidden name, and a value that keeps this one.
pub open spec fn is_among(
    keys: Seq<Seq<char>>,
    name: Seq<char>,
    value: JsonModel,
    after: Seq<(Seq<char>, JsonModel)>,
) -> bool
    decreases value, 1nat,
{
    exists|k: int|
        0 <= k < after.len() && (#[trigger] after[k]).0 == hidden(keys, name) && keeps_values(
            keys,
            value,
            after[k].1,
        )
}

/// The field has the hidden name of one of the fields, and keeps its value.
pub open spec fn is_kept_from(
    keys: Seq<Seq<char>>,
    fields: Seq<(Seq<char>, JsonModel)>,
    field: (Seq<char>, JsonModel),
) -> bool
    decreases fields, 0nat,
{
    exists|i: int|
        0 <= i < fields.len() && field.0 == hidden(keys, (#[trigger] fields[i]).0) && keeps_values(
            keys,
            fields[i].1,
            field.1,
        )
}

/// No later field has the name that this one is given.
pub open spec fn counts(keys: Seq<Seq<char>>, fields: Seq<(Seq<char>, JsonModel)>, i: int) -> bool {
    forall|j: int|
        i < j < fields.len() ==> hidden(keys, (#[trigger] fields[j]).0) != hidden(keys, fields[i].0)
}

/// Hiding keys changes nothing of a document but its texts and the names of its fields.
#[verifier::rlimit(40)]
pub proof fn hiding_keeps_values(keys: Seq<Seq<char>>, json: JsonModel)
    ensures
        keeps_values(keys, json, hidden_json(keys, json)),
    decreases json,
{
    match json {
        JsonModel::List(items) => {
            hidden_items_index(keys, items, items.len());
            assert forall|i: int| 0 <= i < items.len() implies keeps_values(
                keys,
                #[trigger] items[i],
                hidden_items(keys, items, items.len())[i],
            ) by {
                hiding_keeps_values(keys, items[i]);
            }
        },
        JsonModel::Object(fields) => {
            let shown = hidden_fields(keys, fields, fields.len());
            assert forall|i: int| 0 <= i < fields.len() implies keeps_values(
                keys,
                (#[trigger] fields[i]).1,
                hidden_json(keys, fields[i].1),
            ) by {
                hiding_keeps_values(keys, fields[i].1);
            }
            fields_are_kept(keys, fields, fields.len());
            object_keeps_values(keys, fields, shown);
        },
        _ => {},
    }
}

#[verifier::rlimit(40)]
proof fn object_keeps_values(
    keys: Seq<Seq<char>>,
    fields: Seq<(Seq<char>, JsonModel)>,
    shown: Seq<(Seq<char>, JsonModel)>,
)
    requires
        forall|i: int|
            0 <= i < fields.len() ==> keeps_values(
                keys,
                (#[trigger] fields[i]).1,
                hidden_json(keys, fields[i].1),
            ),
        forall|k: int|
            0 <= k < shown.len() ==> exists|i: int|
                0 <= i < fields.len() && (#[trigger] shown[k]) == (
                    hidden(keys, (#[trigger] fields[i]).0),
                    hidden_json(keys, fields[i].1),
                ),
        forall|i: int|
            0 <= i < fields.len() && #[trigger] counts(keys, fields, i) ==> exists|k: int|
                0 <= k < shown.len() && #[trigger] shown[k] == (
                    hidden(keys, fields[i].0),
                    hidden_json(keys, fields[i].1),
                ),
    ensures
        keeps_values(keys, JsonModel::Object(fields), JsonModel::Object(shown)),
{
    assert forall|i: int|
        0 <= i < fields.len() && #[trigger] counts(keys, fields, i) implies is_among(
        keys,
        fields[i].0,
        fields[i].1,
        shown,
    ) by {
        let k = choose|k: int|
            0 <= k < shown.len() && #[trigger] shown[k] == (
                hidden(keys, fields[i].0),
                hidden_json(keys, fields[i].1),
            );
        assert(shown[k].0 == hidden(keys, fields[i].0));
    }
    assert forall|k: int| 0 <= k < shown.len() implies is_kept_from(
        keys,
        fields,
        #[trigger] shown[k],
    ) by {
        let i = choose|i: int|
            0 <= i < fields.len() && shown[k] == (
                hidden(keys, (#[trigger] fields[i]).0),
                hidden_json(keys, fields[i].1),
            );
        assert(shown[k].0 == hidden(keys, fields[i].0));
    }
}

#[verifier::rlimit(40)]
proof fn fields_are_kept(keys: Seq<Seq<char>>, fields: Seq<(Seq<char>, JsonModel)>, n: nat)
    requires
        n <= fields.len(),
    ensures
        ({
            let shown = hidden_fields(keys, fields, n);
            &&& shown.len() <= n
            &&& forall|k: int, l: int|
                0 <= k < l < shown.len() ==> (#[trigger] shown[k]).0 != (#[trigger] shown[l]).0
            &&& forall|k: int|
                0 <= k < shown.len() ==> exists|i: int|
                    0 <= i < n && (#[trigger] shown[k]) == (
                        hidden(keys, (#[trigger] fields[i]).0),
                        hidden_json(keys, fields[i].1),
                    )
            &&& forall|i: int|
                0 <= i < n && (forall|j: int|
                    i < j < n ==> hidden(keys, (#[trigger] fields[j]).0) != hidden(
                        keys,
                        fields[i].0,
                    )) ==> exists|k: int|
                    0 <= k < shown.len() && #[trigger] shown[k] == (
                        hidden(keys, (#[trigger] fields[i]).0),
                        hidden_json(keys, fields[i].1),
                    )
        }),
    decreases n,
{
    if n > 0 {
        let m = (n - 1) as nat;
        fields_are_kept(keys, fields, m);
        let before = hidden_fields(keys, fields, m);
        let name = hidden(keys, fields[m as int].0);
        let value = hidden_json(keys, fields[m as int].1);
        let shown = hidden_fields(keys, fields, n);
        assert(shown == with_field(before, name, value));
        if exists|k: int| 0 <= k < before.len() && (#[trigger] before[k]).0 == name {
            let at = choose|k: int| 0 <= k < before.len() && (#[trigger] before[k]).0 == name;
            with_field_found(before, name, value, at);
            assert(shown == before.update(at, (name, value)));
            assert(shown[at] == (name, hidden_json(keys, fields[m as int].1)));
            assert forall|i: int|
                0 <= i < n && (forall|j: int|
                    i < j < n ==> hidden(keys, (#[trigger] fields[j]).0) != hidden(
                        keys,
                        fields[i].0,
                    )) implies exists|k: int|
                0 <= k < shown.len() && #[trigger] shown[k] == (
                    hidden(keys, (#[trigger] fields[i]).0),
                    hidden_json(keys, fields[i].1),
                ) by {
                if i == m {
                    assert(shown[at] == (name, value));
                } else {
                    assert(hidden(keys, fields[m as int].0) != hidden(keys, fields[i].0));
                    let k = choose|k: int|
                        0 <= k < before.len() && #[trigger] before[k] == (
                            hidden(keys, fields[i].0),
                            hidden_json(keys, fields[i].1),
                        );
                    assert(k != at);
                    assert(shown[k] == before[k]);
                }
            }
        } else {
            with_field_missing(before, name, value);
            assert(shown == before.push((name, value)));
            assert forall|i: int|
                0 <= i < n && (forall|j: int|
                    i < j < n ==> hidden(keys, (#[trigger] fields[j]).0) != hidden(
                        keys,
                        fields[i].0,
                    )) implies exists|k: int|
                0 <= k < shown.len() && #[trigger] shown[k] == (
                    hidden(keys, (#[trigger] fields[i]).0),
                    hidden_json(keys, fields[i].1),
                ) by {
                if i == m {
                    assert(shown[before.len() as int] == (name, value));
                } else {
                    let k = choose|k: int|
                        0 <= k < before.len() && #[trigger] before[k] == (
                            hidden(keys, fields[i].0),
                            hidden_json(keys, fields[i].1),
                        );
                    assert(shown[k] == before[k]);
                }
            }
        }
        assert forall|k: int| 0 <= k < shown.len() implies exists|i: int|
            0 <= i < n && (#[trigger] shown[k]) == (
                hidden(keys, (#[trigger] fields[i]).0),
                hidden_json(keys, fields[i].1),
            ) by {
            if shown[k] == (name, value) {
                assert(shown[k] == (
                    hidden(keys, fields[m as int].0),
                    hidden_json(keys, fields[m as int].1),
                ));
            } else {
                assert(shown[k] == before[k]);
                let i = choose|i: int|
                    0 <= i < m && before[k] == (
                        hidden(keys, (#[trigger] fields[i]).0),
                        hidden_json(keys, fields[i].1),
                    );
                assert(shown[k] == (hidden(keys, fields[i].0), hidden_json(keys, fields[i].1)));
            }
        }
    }
}

/// A document in which the keys are hidden keeps its values.
pub proof fn a_document_keeps_its_values(redactions: Redactions, json: Json, result: Json)
    requires
        call_ensures(Redactions::value, (&redactions, json), result),
    ensures
        keeps_values(redactions.keys(), model(json), model(result)),
{
    hiding_keeps_values(redactions.keys(), model(json));
}

/// Hiding would change no text and no field name of the document, and no object of it
/// has two fields of one name.
pub open spec fn says_nothing_hidden(keys: Seq<Seq<char>>, json: JsonModel) -> bool
    decreases json,
{
    match json {
        JsonModel::Text(text) => hidden_line(keys, text) == text,
        JsonModel::List(items) => forall|i: int|
            0 <= i < items.len() ==> says_nothing_hidden(keys, #[trigger] items[i]),
        JsonModel::Object(fields) => {
            &&& forall|i: int|
                0 <= i < fields.len() ==> hidden(keys, (#[trigger] fields[i]).0) == fields[i].0
                    && says_nothing_hidden(keys, fields[i].1)
            &&& forall|i: int, j: int|
                0 <= i < j < fields.len() ==> (#[trigger] fields[i]).0 != (#[trigger] fields[j]).0
        },
        _ => true,
    }
}

/// A document of which nothing has to be hidden stays as it is.
#[verifier::rlimit(40)]
pub proof fn a_document_without_keys_is_kept(keys: Seq<Seq<char>>, json: JsonModel)
    requires
        says_nothing_hidden(keys, json),
    ensures
        hidden_json(keys, json) == json,
    decreases json,
{
    match json {
        JsonModel::List(items) => {
            hidden_items_index(keys, items, items.len());
            assert forall|i: int| 0 <= i < items.len() implies hidden_json(
                keys,
                #[trigger] items[i],
            ) == items[i] by {
                a_document_without_keys_is_kept(keys, items[i]);
            }
            assert(hidden_items(keys, items, items.len()) =~= items);
        },
        JsonModel::Object(fields) => {
            assert forall|i: int| 0 <= i < fields.len() implies hidden_json(
                keys,
                (#[trigger] fields[i]).1,
            ) == fields[i].1 by {
                a_document_without_keys_is_kept(keys, fields[i].1);
            }
            fields_stay(keys, fields, fields.len());
            assert(fields.take(fields.len() as int) =~= fields);
        },
        _ => {},
    }
}

proof fn fields_stay(keys: Seq<Seq<char>>, fields: Seq<(Seq<char>, JsonModel)>, n: nat)
    requires
        n <= fields.len(),
        forall|i: int|
            0 <= i < fields.len() ==> hidden(keys, (#[trigger] fields[i]).0) == fields[i].0
                && hidden_json(keys, fields[i].1) == fields[i].1,
        forall|i: int, j: int|
            0 <= i < j < fields.len() ==> (#[trigger] fields[i]).0 != (#[trigger] fields[j]).0,
    ensures
        hidden_fields(keys, fields, n) == fields.take(n as int),
    decreases n,
{
    if n > 0 {
        let m = (n - 1) as nat;
        fields_stay(keys, fields, m);
        let before = fields.take(m as int);
        let last = fields[m as int];
        assert forall|k: int| 0 <= k < before.len() implies (#[trigger] before[k]).0 != last.0 by {
            assert(before[k] == fields[k]);
        }
        with_field_missing(before, last.0, last.1);
        assert(before.push((last.0, last.1)) =~= fields.take(n as int));
    } else {
        assert(fields.take(0) =~= Seq::empty());
    }
}

/// A line without a quote that is no document, in which no key stands and whose only
/// run says none, is shown as it is.
pub proof fn a_line_without_keys_is_kept(keys: Seq<Seq<char>>, line: Seq<char>)
    requires
        json_parsed(line) is None,
        lacks(line, '"'),
        says_no_key(keys, line),
        forall|k: int|
            0 <= k < keys.len() && (#[trigger] keys[k]).len() > 0 ==> !holds(line, keys[k])
                && !holds(line, escaped(keys[k])),
    ensures
        hidden_line(keys, line) == line,
{
    if keys.len() > 0 {
        first_index_within(line, '"');
        let start = first_index(line, '"');
        assert(line.skip(0) =~= line);
        assert(token_end(line, start + 1) is None) by {
            if start < line.len() {
                assert(line[start] == '"');
            }
        }
        other_text_is_kept(keys, line);
        assert(hidden_tokens(keys, line, 0, 0) == hidden(keys, line.skip(0)));
    }
}

/// With no keys every line is shown as it is; and a document of which nothing has to be
/// hidden is shown as it is written.
pub proof fn nothing_to_hide(keys: Seq<Seq<char>>, line: Seq<char>)
    ensures
        keys.len() == 0 ==> hidden_line(keys, line) == line,
        keys.len() > 0 && json_parsed(line) is Some && longest(json_parsed(line)->0) < line.len()
            && says_nothing_hidden(keys, json_parsed(line)->0) ==> hidden_line(keys, line)
            == json_written(json_parsed(line)->0),
{
    if json_parsed(line) is Some && says_nothing_hidden(keys, json_parsed(line)->0) {
        a_document_without_keys_is_kept(keys, json_parsed(line)->0);
    }
}

/// The keys of a request are the texts that are given as the API keys of the language
/// service and of the speech service, and no others.
pub proof fn a_request_tells_its_keys(request: Json, result: Redactions, key: Seq<char>)
    requires
        call_ensures(Redactions::of_document, (&request,), result),
        key.len() > 0,
    ensures
        result.keys().contains(key) <==> {
            ||| key_of_service(model(request), "llm"@, key)
            ||| key_of_service(model(request), "asr_api"@, key)
        },
{
    let asked = model(request);
    let first = service_key(asked, "llm"@);
    let second = service_key(asked, "asr_api"@);
    let keys = result.keys();
    if key_of_service(asked, "llm"@, key) {
        assert(keys[0] == key);
    }
    if key_of_service(asked, "asr_api"@, key) {
        assert(keys.last() == key);
    }
    if keys.contains(key) {
        let i = choose|i: int| 0 <= i < keys.len() && keys[i] == key;
        assert(Some(keys[i]) == first || Some(keys[i]) == second);
    }
}

/// The request has this text at `config`, the service, `api_key`.
pub open spec fn key_of_service(request: JsonModel, service: Seq<char>, key: Seq<char>) -> bool {
    let config = field_model(request, "config"@);
    let settings = field_model(config->0, service);
    config is Some && settings is Some && field_model(settings->0, "api_key"@) == Some(
        JsonModel::Text(key),
    )
}

/// A request that is sent as bytes tells the same keys as its document, and bytes that are no
/// document tell none.
pub proof fn a_sent_request_tells_its_keys(
    bytes: &[u8],
    sent: Redactions,
    request: Json,
    read: Redactions,
)
    requires
        call_ensures(Redactions::of_request, (bytes,), sent),
        call_ensures(Redactions::of_document, (&request,), read),
    ensures
        json_parsed_bytes(bytes@) == Some(model(request)) ==> sent.keys() == read.keys(),
        json_parsed_bytes(bytes@) is None ==> sent.keys().len() == 0,
{
}

/// A blank line is not passed on; any other is, with every key hidden.
pub proof fn a_line_is_passed_on_hidden(
    redactions: Redactions,
    line: &str,
    shown: Option<String>,
    hidden: String,
)
    requires
        call_ensures(Redactions::shown, (&redactions, line), shown),
        call_ensures(Redactions::line, (&redactions, line), hidden),
    ensures
        shown is None <==> is_blank(line@),
        shown is Some ==> shown->0@ == hidden@,
{
}

} // verus!
