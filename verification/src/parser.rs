//! The two filters of the core: the structural parser and the pattern extractor.

use crate::config::{object_at, text_at, CObject, Section};
use crate::error::{Fault, SyncError};
use crate::filter::Filter;
use crate::json::{field, fields, json_object, parse_object, put};
use crate::pattern::{captures, compiles, Pattern};
use crate::record::{records, LogMessage, Record};
use crate::steps::{each, lemma_each_fails, lemma_each_next};
use crate::text::{pieces, split, texts, trim, trimmed};
use vstd::prelude::*;

verus! {

/// The structural parser: it decodes the body of each record as a JSON object
/// and takes the log line from the field `log`.
pub struct Json;

/// What the structural parser makes of one record: the decoded object becomes
/// the attributes and the trimmed text of `log` the log line; a body that is
/// not JSON, is no object, or has no text under `log` is a failure.
pub open spec fn decoded(record: Record) -> Result<Record, Fault> {
    match json_object(record.body) {
        None => Err(Fault::JSONError),
        Some(None) => Err(Fault::Option),
        Some(Some(object)) => if object.contains_key("log"@) && object["log"@] is Some {
            Ok(Record { log: Some(trimmed(object["log"@]->0)), map: Some(object), ..record })
        } else {
            Err(Fault::Option)
        },
    }
}

/// [`decoded`] as a step over a batch.
pub open spec fn decode() -> spec_fn(Record) -> Result<Record, Fault> {
    |record: Record| decoded(record)
}

impl Filter for Json {
    /// Every record decoded, or the failure of the first that cannot be.
    open spec fn outcome(&self, batch: Seq<Record>) -> Option<Result<Seq<Record>, Fault>> {
        Some(each(decode(), batch))
    }

    fn process(&self, data: Vec<LogMessage>) -> (r: Result<Vec<LogMessage>, SyncError>) {
        let ghost before = records(data@);
        let mut batch = data;
        let mut i: usize = 0;
        assert(before.take(0) =~= Seq::<Record>::empty());
        assert(records(batch@).take(0) =~= Seq::<Record>::empty());
        while i < batch.len()
            invariant
                i <= batch.len(),
                batch.len() == before.len(),
                before == records(data@),
                each(decode(), before.take(i as int)) == Ok::<Seq<Record>, Fault>(
                    records(batch@).take(i as int),
                ),
                forall|j: int| i <= j < batch.len() ==> (#[trigger] batch@[j])@ == before[j],
            decreases batch.len() - i,
        {
            proof {
                lemma_each_next(decode(), before, i as int);
                assert(batch@[i as int]@ == before[i as int]);
            }
            let object = match parse_object(batch[i].body.as_str()) {
                Ok(Some(object)) => object,
                Ok(None) => {
                    proof {
                        lemma_each_fails(decode(), before, i + 1);
                    }
                    return Err(SyncError::Option);
                },
                Err(error) => {
                    proof {
                        lemma_each_fails(decode(), before, i + 1);
                    }
                    return Err(SyncError::JSONError(error));
                },
            };
            let log = match field(&object, "log") {
                Some(Some(text)) => trim(text.as_str()),
                _ => {
                    proof {
                        lemma_each_fails(decode(), before, i + 1);
                    }
                    return Err(SyncError::Option);
                },
            };
            let ghost done = records(batch@).take(i as int);
            batch[i].log = Some(log);
            batch[i].map = Some(object);
            assert(records(batch@).take(i + 1) =~= done.push(batch@[i as int]@));
            i = i + 1;
        }
        assert(before.take(batch.len() as int) =~= before);
        assert(records(batch@).take(batch.len() as int) =~= records(batch@));
        Ok(batch)
    }
}

/// The pattern extractor: it applies a regular expression to the log line of
/// each record and stores what the groups captured under the configured names.
#[derive(Debug)]
pub struct Regular {
    regex: Pattern,
    mapping: Vec<String>,
}

/// The texts that the groups of a match captured, without the whole match: a
/// group that took no part gives the empty text, no match gives no text.
pub open spec fn groups(found: Option<Seq<Option<Seq<char>>>>) -> Seq<Seq<char>> {
    match found {
        None => Seq::empty(),
        Some(all) => Seq::new(
            if all.len() > 0 {
                (all.len() - 1) as nat
            } else {
                0
            },
            |i: int|
                match all[i + 1] {
                    Some(text) => text,
                    None => Seq::empty(),
                },
        ),
    }
}

/// `object` after the value at each position of `values` was stored under the
/// name at that position, in the order of `names`.
pub open spec fn written(
    object: Map<Seq<char>, Option<Seq<char>>>,
    names: Seq<Seq<char>>,
    values: Seq<Seq<char>>,
) -> Map<Seq<char>, Option<Seq<char>>>
    decreases names.len(),
{
    if names.len() == 0 {
        object
    } else {
        written(object, names.drop_last(), values).insert(
            names.last(),
            Some(values[names.len() - 1]),
        )
    }
}

/// The names in a comma-separated list, each without the white space around it.
pub open spec fn names_of(list: Seq<char>) -> Seq<Seq<char>> {
    Seq::new(pieces(list, ',').len(), |i: int| trimmed(pieces(list, ',')[i]))
}

/// What the pattern extractor makes of one record. A record without
/// attributes passes unchanged; one with attributes but without a log line is
/// a failure. Where the expression captured at least as many groups as there
/// are names, each name receives the text of the group at its position; where
/// it captured fewer, or did not match, the record passes unchanged.
pub open spec fn extracted(pattern: Seq<char>, names: Seq<Seq<char>>, record: Record) -> Result<
    Record,
    Fault,
> {
    match record.map {
        None => Ok(record),
        Some(object) => match record.log {
            None => Err(Fault::Option),
            Some(text) => {
                let values = groups(captures(pattern, text));
                if values.len() >= names.len() {
                    Ok(Record { map: Some(written(object, names, values)), ..record })
                } else {
                    Ok(record)
                }
            },
        },
    }
}

/// [`extracted`] as a step over a batch.
pub open spec fn extract(pattern: Seq<char>, names: Seq<Seq<char>>) -> spec_fn(Record) -> Result<
    Record,
    Fault,
> {
    |record: Record| extracted(pattern, names, record)
}

/// The settings of the pattern extractor in `conf`: the expression and the
/// list of names, or the failure that names the first setting that is missing.
pub open spec fn parser_settings(conf: Seq<(Seq<char>, CObject)>) -> Result<
    (Seq<char>, Seq<char>),
    Fault,
> {
    match object_at(conf, "parser"@) {
        None => Err(Fault::MissingParams("Environment variable 'parser' could not be found."@)),
        Some(parser) => match text_at(parser@, "regex"@) {
            None => Err(
                Fault::MissingParams("Environment variable 'parser.regex' could not be found."@),
            ),
            Some(expression) => match text_at(parser@, "mapping"@) {
                None => Err(
                    Fault::MissingParams(
                        "Environment variable 'parser.mapping' could not be found."@,
                    ),
                ),
                Some(list) => Ok((expression, list)),
            },
        },
    }
}

impl Regular {
    /// The source text of the expression.
    pub closed spec fn pattern(&self) -> Seq<char> {
        self.regex@
    }

    /// The names that the groups are stored under, in the order of the groups.
    pub closed spec fn names(&self) -> Seq<Seq<char>> {
        texts(self.mapping@)
    }

    /// The source text of the expression.
    pub fn expression(&self) -> (r: &str)
        ensures
            r@ == self.pattern(),
    {
        self.regex.source()
    }

    /// The names that the groups are stored under, in the order of the groups.
    pub fn mapping(&self) -> (r: &Vec<String>)
        ensures
            texts(r@) == self.names(),
    {
        &self.mapping
    }

    /// The extractor for an expression that was compiled, with the names in
    /// the comma-separated `list`; the compiler's refusal becomes the failure.
    pub fn assemble(compiled: Result<Pattern, regex::Error>, list: &str) -> (r: Result<
        Regular,
        SyncError,
    >)
        ensures
            match (compiled, r) {
                (Ok(pattern), Ok(filter)) => filter.pattern() == pattern@ && filter.names()
                    == names_of(list@),
                (Err(_), Err(error)) => error@ == Fault::RegexError,
                _ => false,
            },
    {
        match compiled {
            Err(error) => Err(SyncError::RegexError(error)),
            Ok(regex) => {
                let parts = split(list, ',');
                let mut mapping: Vec<String> = Vec::new();
                let mut i: usize = 0;
                while i < parts.len()
                    invariant
                        i <= parts.len(),
                        texts(parts@) == pieces(list@, ','),
                        mapping.len() == i,
                        forall|j: int|
                            0 <= j < i ==> (#[trigger] mapping@[j])@ == trimmed(parts@[j]@),
                    decreases parts.len() - i,
                {
                    mapping.push(trim(parts[i].as_str()));
                    i = i + 1;
                }
                assert(texts(mapping@) =~= names_of(list@));
                Ok(Regular { regex, mapping })
            },
        }
    }

    /// The extractor that `conf` describes under `parser`: the expression in
    /// `regex` and the names in `mapping`. Fails where one of the three is
    /// missing, with the message that names it, and where the expression
    /// does not compile; succeeds on every other configuration.
    pub fn create(conf: &Section) -> (r: Result<Regular, SyncError>)
        ensures
            match parser_settings(conf@) {
                Err(fault) => r matches Err(error) && error@ == fault,
                Ok((expression, list)) => if compiles(expression) {
                    r matches Ok(filter) && filter.pattern() == expression && filter.names()
                        == names_of(list)
                } else {
                    r matches Err(error) && error@ == Fault::RegexError
                },
            },
    {
        let parser = match conf.object("parser") {
            Some(section) => section,
            None => {
                return Err(
                    SyncError::MissingParams("Environment variable 'parser' could not be found."),
                );
            },
        };
        let expression = match parser.string("regex") {
            Some(text) => text,
            None => {
                return Err(
                    SyncError::MissingParams(
                        "Environment variable 'parser.regex' could not be found.",
                    ),
                );
            },
        };
        let list = match parser.string("mapping") {
            Some(text) => text,
            None => {
                return Err(
                    SyncError::MissingParams(
                        "Environment variable 'parser.mapping' could not be found.",
                    ),
                );
            },
        };
        Regular::assemble(Pattern::compile(expression.as_str()), list.as_str())
    }

    /// The texts that the groups of the expression capture in `text`, in the
    /// order of the groups; none where the expression does not match.
    pub fn regex(&self, text: &str) -> (r: Vec<String>)
        ensures
            texts(r@) == groups(captures(self.pattern(), text@)),
    {
        let mut values: Vec<String> = Vec::new();
        match self.regex.captures(text) {
            None => {
                assert(texts(values@) =~= groups(captures(self.pattern(), text@)));
            },
            Some(found) => {
                let ghost all = captures(self.pattern(), text@)->0;
                let mut i: usize = 1;
                while i < found.len()
                    invariant
                        1 <= i,
                        i <= found.len() || i == 1,
                        all.len() == found.len(),
                        values.len() == i - 1,
                        forall|j: int|
                            0 <= j < found.len() ==> all[j] == match (#[trigger] found@[j]) {
                                Some(group) => Some(group@),
                                None => None,
                            },
                        forall|j: int|
                            0 <= j < values.len() ==> (#[trigger] values@[j])@ == match all[j + 1] {
                                Some(group) => group,
                                None => Seq::<char>::empty(),
                            },
                    decreases found.len() - i,
                {
                    let value = match &found[i] {
                        Some(group) => group.clone(),
                        None => String::new(),
                    };
                    values.push(value);
                    i = i + 1;
                }
                assert forall|j: int| 0 <= j < values.len() implies texts(values@)[j] == groups(
                    Some(all),
                )[j] by {
                    assert(values@[j]@ == match all[j + 1] {
                        Some(group) => group,
                        None => Seq::<char>::empty(),
                    });
                }
                assert(texts(values@) =~= groups(captures(self.pattern(), text@)));
            },
        }
        values
    }
}

/// Stores the value at each position of `values` under the name at that
/// position.
fn write(
    object: &mut serde_json::Map<String, serde_json::Value>,
    names: &Vec<String>,
    values: &Vec<String>,
)
    requires
        values.len() >= names.len(),
    ensures
        fields(*final(object)) == written(fields(*old(object)), texts(names@), texts(values@)),
{
    let mut k: usize = 0;
    assert(texts(names@).take(0) =~= Seq::<Seq<char>>::empty());
    while k < names.len()
        invariant
            k <= names.len() <= values.len(),
            fields(*object) == written(
                fields(*old(object)),
                texts(names@).take(k as int),
                texts(values@),
            ),
        decreases names.len() - k,
    {
        assert(texts(names@).take(k + 1).drop_last() =~= texts(names@).take(k as int));
        put(object, names[k].clone(), values[k].clone());
        k = k + 1;
    }
    assert(texts(names@).take(names.len() as int) =~= texts(names@));
}

impl Filter for Regular {
    /// Every record with what the expression captured in its log line, or the
    /// failure of the first record that has attributes and no log line.
    open spec fn outcome(&self, batch: Seq<Record>) -> Option<Result<Seq<Record>, Fault>> {
        Some(each(extract(self.pattern(), self.names()), batch))
    }

    fn process(&self, data: Vec<LogMessage>) -> (r: Result<Vec<LogMessage>, SyncError>) {
        let ghost before = records(data@);
        let ghost step = extract(self.pattern(), self.names());
        let mut batch = data;
        let mut i: usize = 0;
        assert(before.take(0) =~= Seq::<Record>::empty());
        assert(records(batch@).take(0) =~= Seq::<Record>::empty());
        while i < batch.len()
            invariant
                i <= batch.len(),
                batch.len() == before.len(),
                before == records(data@),
                step == extract(self.pattern(), self.names()),
                each(step, before.take(i as int)) == Ok::<Seq<Record>, Fault>(
                    records(batch@).take(i as int),
                ),
                forall|j: int| i <= j < batch.len() ==> (#[trigger] batch@[j])@ == before[j],
            decreases batch.len() - i,
        {
            proof {
                lemma_each_next(step, before, i as int);
                assert(batch@[i as int]@ == before[i as int]);
            }
            let ghost done = records(batch@).take(i as int);
            if batch[i].map.is_some() {
                let values = match &batch[i].log {
                    Some(text) => self.regex(text.as_str()),
                    None => {
                        proof {
                            lemma_each_fails(step, before, i + 1);
                        }
                        return Err(SyncError::Option);
                    },
                };
                if values.len() >= self.mapping.len() {
                    match &mut batch[i].map {
                        Some(object) => write(object, &self.mapping, &values),
                        None => {},
                    }
                }
            }
            assert(records(batch@).take(i + 1) =~= done.push(batch@[i as int]@));
            i = i + 1;
        }
        assert(before.take(batch.len() as int) =~= before);
        assert(records(batch@).take(batch.len() as int) =~= records(batch@));
        Ok(batch)
    }
}

/// A record whose log line the expression does not match passes the pattern
/// extractor exactly as it was, and is no failure.
pub proof fn law_no_match_passes(pattern: Seq<char>, names: Seq<Seq<char>>, record: Record)
    requires
        record.log matches Some(text) && captures(pattern, text) is None,
    ensures
        extracted(pattern, names, record) == Ok::<Record, Fault>(record),
{
    if record.map is Some && names.len() == 0 {
        assert(written(record.map->0, names, groups(captures(pattern, record.log->0)))
            == record.map->0);
    }
}

/// A record in whose log line the expression captures fewer groups than there
/// are names passes the pattern extractor exactly as it was.
pub proof fn law_few_groups_pass(pattern: Seq<char>, names: Seq<Seq<char>>, record: Record)
    requires
        record.log matches Some(text) && groups(captures(pattern, text)).len() < names.len(),
    ensures
        extracted(pattern, names, record) == Ok::<Record, Fault>(record),
{
}

/// Where the expression captures enough groups, each name holds afterwards
/// the text of the group at the last position that bears this name, and every
/// other attribute is as it was.
pub proof fn law_groups_are_stored(
    object: Map<Seq<char>, Option<Seq<char>>>,
    names: Seq<Seq<char>>,
    values: Seq<Seq<char>>,
)
    requires
        values.len() >= names.len(),
    ensures
        forall|i: int|
            0 <= i < names.len() && (forall|j: int| i < j < names.len() ==> names[j] != names[i])
                ==> written(object, names, values).contains_key(#[trigger] names[i]) && written(
                object,
                names,
                values,
            )[names[i]] == Some(values[i]),
        forall|name: Seq<char>|
            !names.contains(name) ==> written(object, names, values).contains_key(name)
                == object.contains_key(name) && (object.contains_key(name) ==> written(
                object,
                names,
                values,
            )[name] == object[name]),
    decreases names.len(),
{
    if names.len() > 0 {
        let front = names.drop_last();
        law_groups_are_stored(object, front, values);
        assert forall|i: int|
            0 <= i < names.len() && (forall|j: int|
                i < j < names.len() ==> names[j] != names[i]) implies written(
            object,
            names,
            values,
        ).contains_key(#[trigger] names[i]) && written(object, names, values)[names[i]] == Some(
            values[i],
        ) by {
            if i < front.len() {
                assert(names[names.len() - 1] != names[i]);
                assert(front[i] == names[i]);
                assert forall|j: int| i < j < front.len() implies front[j] != front[i] by {
                    assert(names[j] != names[i]);
                }
            }
        }
        assert forall|name: Seq<char>| !names.contains(name) implies written(
            object,
            names,
            values,
        ).contains_key(name) == object.contains_key(name) && (object.contains_key(name)
            ==> written(object, names, values)[name] == object[name]) by {
            assert(names.last() != name);
            if front.contains(name) {
                let at = choose|at: int| 0 <= at < front.len() && front[at] == name;
                assert(names[at] == name);
            }
        }
    }
}

} // verus!
