//! The closed set of operations the client can request, and the parser that
//! turns already tokenized command-line input into one of them.
use vstd::prelude::*;
use crate::params::PersonParams;
use crate::text::{contains_char, has_char, same_text};

verus! {

/// What a command denotes, with its text as character sequences and the
/// person attributes as a mapping.
pub enum CommandModel {
    Healthcheck,
    ShowQuestionnaires,
    ShowPeople,
    DeletePerson { email: Seq<char> },
    CreatePerson { fields: Map<Seq<char>, Seq<char>> },
    AddPersonToQuestionnaire { id: Seq<char>, email: Seq<char> },
    RemovePersonFromQuestionnaire { id: Seq<char>, email: Seq<char> },
    Unrecognized { raw_tokens: Seq<Seq<char>> },
}

/// An operation requested of a service instance.
#[derive(Debug)]
pub enum Command {
    Healthcheck,
    ShowQuestionnaires,
    ShowPeople,
    DeletePerson { email: String },
    CreatePerson(PersonParams),
    AddPersonToQuestionnaire { id: String, email: String },
    RemovePersonFromQuestionnaire { id: String, email: String },
    /// Input that matches no operation, with all of its tokens in order.
    Unrecognized { raw_tokens: Vec<String> },
}

impl View for Command {
    type V = CommandModel;

    open spec fn view(&self) -> CommandModel {
        match self {
            Command::Healthcheck => CommandModel::Healthcheck,
            Command::ShowQuestionnaires => CommandModel::ShowQuestionnaires,
            Command::ShowPeople => CommandModel::ShowPeople,
            Command::DeletePerson { email } => CommandModel::DeletePerson { email: email@ },
            Command::CreatePerson(p) => CommandModel::CreatePerson { fields: p@ },
            Command::AddPersonToQuestionnaire { id, email } => {
                CommandModel::AddPersonToQuestionnaire { id: id@, email: email@ }
            },
            Command::RemovePersonFromQuestionnaire { id, email } => {
                CommandModel::RemovePersonFromQuestionnaire { id: id@, email: email@ }
            },
            Command::Unrecognized { raw_tokens } => {
                CommandModel::Unrecognized { raw_tokens: raw_tokens.deep_view() }
            },
        }
    }
}

/// An email address must hold at least one `@`.
pub open spec fn is_email(s: Seq<char>) -> bool {
    contains_char(s, '@')
}

/// The attribute name of a `--name` flag: the flag without its leading two
/// dashes, or the token itself where it has none.
pub open spec fn flag_key(t: Seq<char>) -> Seq<char> {
    if t.len() >= 2 && t[0] == '-' && t[1] == '-' {
        t.subrange(2, t.len() as int)
    } else {
        t
    }
}

/// The attributes that consecutive (flag, value) pairs give, a later pair
/// for a name replacing an earlier one.
pub open spec fn flag_fields(flags: Seq<Seq<char>>) -> Map<Seq<char>, Seq<char>>
    decreases flags.len(),
{
    if flags.len() < 2 {
        Map::empty()
    } else {
        let n = flags.len() as int;
        flag_fields(flags.subrange(0, n - 2)).insert(flag_key(flags[n - 2]), flags[n - 1])
    }
}

/// What the argument tokenizer guarantees before the parser runs: `show`
/// names one of the two kinds, and `update` one of the two modes.
pub open spec fn tokenizer_guarantees(name: Seq<char>, positional: Seq<Seq<char>>) -> bool {
    &&& (name == "show"@ && positional.len() == 1) ==> (positional[0] == "people"@
        || positional[0] == "questionnaires"@)
    &&& (name == "update"@ && positional.len() == 3) ==> (positional[1] == "add"@
        || positional[1] == "remove"@)
}

/// The command that a subcommand name with its positional values and flag
/// tokens denotes; the first matching rule wins.
pub open spec fn parse_spec(
    name: Seq<char>,
    positional: Seq<Seq<char>>,
    flags: Seq<Seq<char>>,
) -> CommandModel {
    let np = positional.len();
    let no_flags = flags.len() == 0;
    if name == "health"@ && np == 0 && no_flags {
        CommandModel::Healthcheck
    } else if name == "show"@ && np == 1 && no_flags && positional[0] == "people"@ {
        CommandModel::ShowPeople
    } else if name == "show"@ && np == 1 && no_flags && positional[0] == "questionnaires"@ {
        CommandModel::ShowQuestionnaires
    } else if name == "delete"@ && np == 1 && no_flags && is_email(positional[0]) {
        CommandModel::DeletePerson { email: positional[0] }
    } else if name == "update"@ && np == 3 && no_flags && positional[1] == "add"@ && is_email(
        positional[2],
    ) {
        CommandModel::AddPersonToQuestionnaire { id: positional[0], email: positional[2] }
    } else if name == "update"@ && np == 3 && no_flags && positional[1] == "remove"@ && is_email(
        positional[2],
    ) {
        CommandModel::RemovePersonFromQuestionnaire { id: positional[0], email: positional[2] }
    } else if name == "create"@ && np == 1 && positional[0] == "person"@ && flags.len() % 2 == 0 {
        CommandModel::CreatePerson { fields: flag_fields(flags) }
    } else {
        CommandModel::Unrecognized { raw_tokens: seq![name] + positional + flags }
    }
}

/// The attribute name of the `i`-th (flag, value) pair.
pub open spec fn pair_key(flags: Seq<Seq<char>>, i: int) -> Seq<char> {
    flag_key(flags[2 * i])
}

/// The value of the `i`-th (flag, value) pair.
pub open spec fn pair_value(flags: Seq<Seq<char>>, i: int) -> Seq<char> {
    flags[2 * i + 1]
}

/// No two (flag, value) pairs name the same attribute.
pub open spec fn distinct_keys(flags: Seq<Seq<char>>) -> bool {
    forall|i: int, j: int|
        0 <= i < j < flags.len() / 2 ==> #[trigger] pair_key(flags, i) != #[trigger] pair_key(
            flags,
            j,
        )
}

/// The (name, value) pairs that flag tokens give, without their order.
pub open spec fn flag_pairs(flags: Seq<Seq<char>>) -> Set<(Seq<char>, Seq<char>)> {
    Set::new(
        |kv: (Seq<char>, Seq<char>)|
            exists|i: int|
                0 <= i < flags.len() / 2 && kv == (#[trigger] pair_key(flags, i), pair_value(
                    flags,
                    i,
                )),
    )
}

/// With every attribute named once, the attributes of flag tokens are exactly
/// their pairs.
pub proof fn lemma_flag_fields_distinct(flags: Seq<Seq<char>>)
    requires
        flags.len() % 2 == 0,
        distinct_keys(flags),
    ensures
        forall|i: int|
            0 <= i < flags.len() / 2 ==> flag_fields(flags).contains_key(#[trigger] pair_key(flags, i))
                && flag_fields(flags)[pair_key(flags, i)] == pair_value(flags, i),
        forall|k: Seq<char>|
            #[trigger] flag_fields(flags).contains_key(k) ==> exists|i: int|
                0 <= i < flags.len() / 2 && #[trigger] pair_key(flags, i) == k,
    decreases flags.len(),
{
    if flags.len() >= 2 {
        let n = flags.len() as int;
        let m = n / 2 - 1;
        let f1 = flags.subrange(0, n - 2);
        assert(f1.len() / 2 == m);
        assert forall|i: int, j: int| 0 <= i < j < f1.len() / 2 implies #[trigger] pair_key(f1, i)
            != #[trigger] pair_key(f1, j) by {
            assert(f1[2 * i] == flags[2 * i]);
            assert(f1[2 * j] == flags[2 * j]);
            assert(pair_key(flags, i) != pair_key(flags, j));
        }
        lemma_flag_fields_distinct(f1);
        assert(flag_fields(flags) == flag_fields(f1).insert(pair_key(flags, m), pair_value(flags, m)));
        assert forall|i: int| 0 <= i < flags.len() / 2 implies flag_fields(flags).contains_key(
            #[trigger] pair_key(flags, i),
        ) && flag_fields(flags)[pair_key(flags, i)] == pair_value(flags, i) by {
            if i < m {
                assert(f1[2 * i] == flags[2 * i]);
                assert(f1[2 * i + 1] == flags[2 * i + 1]);
                assert(pair_key(f1, i) == pair_key(flags, i));
                assert(pair_key(flags, i) != pair_key(flags, m));
            }
        }
        assert forall|k: Seq<char>| #[trigger] flag_fields(flags).contains_key(k) implies exists|i: int|
            0 <= i < flags.len() / 2 && #[trigger] pair_key(flags, i) == k by {
            if k != pair_key(flags, m) {
                let i = choose|i: int| 0 <= i < f1.len() / 2 && #[trigger] pair_key(f1, i) == k;
                assert(f1[2 * i] == flags[2 * i]);
                assert(pair_key(flags, i) == k);
            }
        }
    }
}

/// Flag tokens that give the same (name, value) pairs, each naming every
/// attribute once, denote the same person for `create person`, in whatever
/// order the pairs come.
pub proof fn lemma_create_any_order(a: Seq<Seq<char>>, b: Seq<Seq<char>>)
    requires
        a.len() % 2 == 0,
        b.len() % 2 == 0,
        distinct_keys(a),
        distinct_keys(b),
        flag_pairs(a) == flag_pairs(b),
    ensures
        parse_spec("create"@, seq!["person"@], a) == parse_spec("create"@, seq!["person"@], b),
{
    lemma_flag_fields_distinct(a);
    lemma_flag_fields_distinct(b);
    assert forall|k: Seq<char>| #[trigger] flag_fields(a).contains_key(k) implies flag_fields(
        b,
    ).contains_key(k) && flag_fields(b)[k] == flag_fields(a)[k] by {
        let i = choose|i: int| 0 <= i < a.len() / 2 && #[trigger] pair_key(a, i) == k;
        assert(flag_pairs(a).contains((pair_key(a, i), pair_value(a, i))));
        assert(flag_pairs(b).contains((k, pair_value(a, i))));
        let j = choose|j: int|
            0 <= j < b.len() / 2 && (k, pair_value(a, i)) == (#[trigger] pair_key(b, j), pair_value(
                b,
                j,
            ));
    }
    assert forall|k: Seq<char>| #[trigger] flag_fields(b).contains_key(k) implies flag_fields(
        a,
    ).contains_key(k) by {
        let j = choose|j: int| 0 <= j < b.len() / 2 && #[trigger] pair_key(b, j) == k;
        assert(flag_pairs(b).contains((pair_key(b, j), pair_value(b, j))));
        assert(flag_pairs(a).contains((k, pair_value(b, j))));
        let i = choose|i: int|
            0 <= i < a.len() / 2 && (k, pair_value(b, j)) == (#[trigger] pair_key(a, i), pair_value(
                a,
                i,
            ));
    }
    assert(flag_fields(a) =~= flag_fields(b));
    reveal_strlit("create");
    reveal_strlit("health");
    reveal_strlit("show");
    reveal_strlit("delete");
    reveal_strlit("update");
    reveal_strlit("person");
    assert("create"@.len() == 6 && "health"@.len() == 6 && "show"@.len() == 4);
    assert("create"@[0] == 'c' && "health"@[0] == 'h' && "delete"@[0] == 'd' && "update"@[0]
        == 'u');
    assert("create"@ != "health"@ && "create"@ != "show"@ && "create"@ != "delete"@ && "create"@
        != "update"@);
}

/// Validator of email arguments: `Ok` iff the value holds an `@`.
pub fn has_at(v: String) -> (r: Result<(), String>)
    ensures
        r is Ok <==> is_email(v@),
        r matches Err(m) ==> m@ == "The value did not contain the required @ sigil"@,
{
    if has_char(v.as_str(), '@') {
        return Ok(());
    }
    Err(String::from_str("The value did not contain the required @ sigil"))
}

/// Whether the input keeps what the argument tokenizer guarantees, so that
/// it may be handed to the parser.
pub fn tokenizer_guarantees_hold(name: &str, positional: &Vec<String>) -> (r: bool)
    ensures
        r == tokenizer_guarantees(name@, positional.deep_view()),
{
    if same_text(name, "show") && positional.len() == 1 {
        let kind = positional[0].as_str();
        if !(same_text(kind, "people") || same_text(kind, "questionnaires")) {
            return false;
        }
    }
    if same_text(name, "update") && positional.len() == 3 {
        let mode = positional[1].as_str();
        if !(same_text(mode, "add") || same_text(mode, "remove")) {
            return false;
        }
    }
    true
}

/// The attribute name of a flag token.
fn key_of_flag(t: &str) -> (r: String)
    ensures
        r@ == flag_key(t@),
{
    let n = t.unicode_len();
    if n >= 2 && t.get_char(0) == '-' && t.get_char(1) == '-' {
        String::from_str(t.substring_char(2, n))
    } else {
        String::from_str(t)
    }
}

/// A copy of a list of strings.
fn copy_strings(v: &Vec<String>) -> (r: Vec<String>)
    ensures
        r.deep_view() == v.deep_view(),
{
    let mut out: Vec<String> = Vec::new();
    let mut i: usize = 0;
    while i < v.len()
        invariant
            i <= v@.len(),
            out@.len() == i,
            out.deep_view() == v.deep_view().take(i as int),
        decreases v@.len() - i,
    {
        let ghost prev = out@;
        let ghost prev_dv = out.deep_view();
        let s = v[i].clone();
        out.push(s);
        assert forall|j: int| 0 <= j < i + 1 implies out.deep_view()[j] == v.deep_view()[j] by {
            if j < i {
                assert(out@[j] == prev[j]);
                assert(prev_dv[j] == prev[j]@);
                assert(prev_dv[j] == v.deep_view().take(i as int)[j]);
            } else {
                assert(out@[j] == v@[j]);
            }
        }
        assert(out.deep_view() =~= v.deep_view().take(i + 1));
        i = i + 1;
    }
    assert(v.deep_view().take(v@.len() as int) =~= v.deep_view());
    out
}

/// Whether two lists of strings hold the same texts in the same order.
fn same_strings(a: &Vec<String>, b: &Vec<String>) -> (r: bool)
    ensures
        r == (a.deep_view() == b.deep_view()),
{
    if a.len() != b.len() {
        assert(a.deep_view().len() != b.deep_view().len());
        return false;
    }
    let mut i: usize = 0;
    while i < a.len()
        invariant
            a@.len() == b@.len(),
            i <= a@.len(),
            forall|j: int| 0 <= j < i ==> a.deep_view()[j] == b.deep_view()[j],
        decreases a@.len() - i,
    {
        if a[i] != b[i] {
            assert(a.deep_view()[i as int] != b.deep_view()[i as int]);
            return false;
        }
        i = i + 1;
    }
    assert(a.deep_view() =~= b.deep_view());
    true
}

impl PartialEq for Command {
    fn eq(&self, other: &Command) -> (r: bool) {
        match (self, other) {
            (Command::Healthcheck, Command::Healthcheck) => true,
            (Command::ShowQuestionnaires, Command::ShowQuestionnaires) => true,
            (Command::ShowPeople, Command::ShowPeople) => true,
            (Command::DeletePerson { email: a }, Command::DeletePerson { email: b }) => *a == *b,
            (Command::CreatePerson(a), Command::CreatePerson(b)) => *a == *b,
            (
                Command::AddPersonToQuestionnaire { id: a, email: b },
                Command::AddPersonToQuestionnaire { id: c, email: d },
            ) => *a == *c && *b == *d,
            (
                Command::RemovePersonFromQuestionnaire { id: a, email: b },
                Command::RemovePersonFromQuestionnaire { id: c, email: d },
            ) => *a == *c && *b == *d,
            (Command::Unrecognized { raw_tokens: a }, Command::Unrecognized { raw_tokens: b }) => {
                same_strings(a, b)
            },
            _ => false,
        }
    }
}

impl vstd::std_specs::cmp::PartialEqSpecImpl for Command {
    open spec fn obeys_eq_spec() -> bool {
        true
    }

    open spec fn eq_spec(&self, other: &Command) -> bool {
        self@ == other@
    }
}

impl Eq for Command {
}

impl Command {
    /// Turns a subcommand name, its positional values and its flag tokens
    /// into a command; input that matches no rule gives `Unrecognized`.
    pub fn parse(name: &str, positional: &Vec<String>, flags: &Vec<String>) -> (r: Command)
        requires
            tokenizer_guarantees(name@, positional.deep_view()),
        ensures
            r@ == parse_spec(name@, positional.deep_view(), flags.deep_view()),
    {
        let np = positional.len();
        let nf = flags.len();
        let ghost pd = positional.deep_view();
        let ghost fd = flags.deep_view();
        if same_text(name, "health") && np == 0 && nf == 0 {
            return Command::Healthcheck;
        }
        if same_text(name, "show") && np == 1 && nf == 0 {
            if same_text(positional[0].as_str(), "people") {
                return Command::ShowPeople;
            }
            return Command::ShowQuestionnaires;
        }
        if same_text(name, "delete") && np == 1 && nf == 0 && has_at(positional[0].clone()).is_ok() {
            return Command::DeletePerson { email: positional[0].clone() };
        }
        if same_text(name, "update") && np == 3 && nf == 0 && has_at(positional[2].clone()).is_ok() {
            let id = positional[0].clone();
            let email = positional[2].clone();
            if same_text(positional[1].as_str(), "add") {
                return Command::AddPersonToQuestionnaire { id, email };
            }
            return Command::RemovePersonFromQuestionnaire { id, email };
        }
        if same_text(name, "create") && np == 1 && same_text(positional[0].as_str(), "person") && nf
            % 2 == 0 {
            let mut fields = PersonParams::new();
            let mut i: usize = 0;
            while i < nf
                invariant
                    nf == fd.len(),
                    fd == flags.deep_view(),
                    nf % 2 == 0,
                    i % 2 == 0,
                    i <= nf,
                    fields@ == flag_fields(fd.take(i as int)),
                decreases nf - i,
            {
                let key = key_of_flag(flags[i].as_str());
                let value = flags[i + 1].clone();
                fields.insert(key, value);
                proof {
                    let t = fd.take(i + 2);
                    assert(t.subrange(0, i as int) =~= fd.take(i as int));
                    assert(t[i as int] == fd[i as int]);
                    assert(t[i + 1] == fd[i + 1]);
                }
                i = i + 2;
            }
            assert(fd.take(nf as int) =~= fd);
            return Command::CreatePerson(fields);
        }
        let mut raw_tokens: Vec<String> = Vec::new();
        raw_tokens.push(String::from_str(name));
        let mut rest = copy_strings(positional);
        raw_tokens.append(&mut rest);
        let mut more = copy_strings(flags);
        raw_tokens.append(&mut more);
        assert(raw_tokens.deep_view() =~= seq![name@] + pd + fd);
        Command::Unrecognized { raw_tokens }
    }
}

} // verus!
