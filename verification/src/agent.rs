use vstd::prelude::*;
use vstd::string::StringExecFns;
use crate::text::{decimal, decimal_value, digit, law_decimal_reads_back, push_char};

verus! {

/// A document of context that an agent always has at hand.
pub struct Document {
    pub id: String,
    pub text: String,
    /// Further properties, as pairs of a name and a value.
    pub additional_props: Vec<(String, String)>,
}

/// The character of the decimal digit `d`.
fn digit_char(d: usize) -> (c: char)
    requires
        d < 10,
    ensures
        c == digit(d as nat),
{
    match d {
        0 => '0',
        1 => '1',
        2 => '2',
        3 => '3',
        4 => '4',
        5 => '5',
        6 => '6',
        7 => '7',
        8 => '8',
        _ => '9',
    }
}

/// `n` written in decimal.
pub fn decimal_string(n: usize) -> (s: String)
    ensures
        s@ == decimal(n as nat),
    decreases n,
{
    if n < 10 {
        let mut s = String::new();
        push_char(&mut s, digit_char(n));
        assert(s@ =~= seq![digit(n as nat)]);
        s
    } else {
        let mut s = decimal_string(n / 10);
        push_char(&mut s, digit_char(n % 10));
        s
    }
}

/// The id of the static context document that comes after `index` others: `static_doc_`
/// followed by `index` in decimal.
pub open spec fn static_doc_id(index: nat) -> Seq<char> {
    seq!['s', 't', 'a', 't', 'i', 'c', '_', 'd', 'o', 'c', '_'] + decimal(index)
}

/// The static context document with the text `doc` that comes after `index` others; it has
/// no further properties.
pub fn static_context_document(index: usize, doc: &str) -> (d: Document)
    ensures
        d.id@ == static_doc_id(index as nat),
        d.text@ == doc@,
        d.additional_props@.len() == 0,
{
    let mut id = String::from_str("static_doc_");
    proof {
        reveal_strlit("static_doc_");
    }
    let number = decimal_string(index);
    id.append(number.as_str());
    Document { id, text: String::from_str(doc), additional_props: Vec::new() }
}

/// The preamble after `doc` is appended to it: the old preamble (empty if there was none),
/// a line break, and `doc`.
pub fn appended_preamble(preamble: Option<String>, doc: &str) -> (p: String)
    ensures
        p@ == match preamble {
            Some(old) => old@,
            None => Seq::<char>::empty(),
        } + seq!['\n'] + doc@,
{
    let mut p = match preamble {
        Some(old) => old,
        None => String::new(),
    };
    push_char(&mut p, '\n');
    p.append(doc);
    p
}

/// The preamble that a built agent gets: the one set, or the empty text.
pub fn built_preamble(preamble: Option<String>) -> (p: String)
    ensures
        p@ == match preamble {
            Some(old) => old@,
            None => Seq::<char>::empty(),
        },
{
    match preamble {
        Some(old) => old,
        None => String::new(),
    }
}

/// What an agent is made of before it is built, as far as it is text: the preamble, if one
/// was set, the texts of the static context documents in the order they were added, the
/// names of the static tools in the order they were added, and the limit on the tokens of a
/// completion.
pub struct AgentSettingsView {
    pub preamble: Option<Seq<char>>,
    pub context: Seq<Seq<char>>,
    pub tools: Seq<Seq<char>>,
    pub max_tokens: Option<u64>,
}

/// The text part of an agent builder: the preamble, the static context documents, the names
/// of the static tools and the limit on the tokens of a completion. Each context document is
/// numbered by its place: the first is `static_doc_0`, the next `static_doc_1`, and so on.
pub struct AgentSettings {
    preamble: Option<String>,
    static_context: Vec<Document>,
    static_tools: Vec<String>,
    max_tokens: Option<u64>,
}

/// The text of a preamble that may be missing: the empty text when it is.
pub open spec fn preamble_text(preamble: Option<Seq<char>>) -> Seq<char> {
    match preamble {
        Some(p) => p,
        None => Seq::<char>::empty(),
    }
}

impl View for AgentSettings {
    type V = AgentSettingsView;

    closed spec fn view(&self) -> AgentSettingsView {
        AgentSettingsView {
            preamble: match self.preamble {
                Some(p) => Some(p@),
                None => None,
            },
            context: self.static_context@.map_values(|d: Document| d.text@),
            tools: self.static_tools@.map_values(|t: String| t@),
            max_tokens: self.max_tokens,
        }
    }
}

/// What a built agent gets of its settings.
pub struct AgentParts {
    pub preamble: String,
    pub static_context: Vec<Document>,
    pub static_tools: Vec<String>,
    pub max_tokens: Option<u64>,
}

impl AgentSettings {
    /// Each context document has the id of its place and no further properties.
    #[verifier::type_invariant]
    spec fn documents_numbered(self) -> bool {
        forall|i: int| 0 <= i < self.static_context@.len() ==> {
            &&& #[trigger] self.static_context@[i].id@ == static_doc_id(i as nat)
            &&& self.static_context@[i].additional_props@.len() == 0
        }
    }

    /// No preamble, no context, no tools and no limit on the tokens.
    pub fn new() -> (s: Self)
        ensures
            s@.preamble is None,
            s@.context == Seq::<Seq<char>>::empty(),
            s@.tools == Seq::<Seq<char>>::empty(),
            s@.max_tokens is None,
    {
        let s = AgentSettings {
            preamble: None,
            static_context: Vec::new(),
            static_tools: Vec::new(),
            max_tokens: None,
        };
        assert(s@.context =~= Seq::<Seq<char>>::empty());
        assert(s@.tools =~= Seq::<Seq<char>>::empty());
        s
    }

    /// Sets the preamble, the system prompt, to `preamble`.
    pub fn preamble(self, preamble: &str) -> (s: Self)
        ensures
            s@ == (AgentSettingsView { preamble: Some(preamble@), ..self@ }),
    {
        proof { use_type_invariant(&self); }
        let AgentSettings { preamble: _, static_context, static_tools, max_tokens } = self;
        AgentSettings { preamble: Some(String::from_str(preamble)), static_context, static_tools, max_tokens }
    }

    /// Appends `doc` to the preamble, after a line break; a missing preamble counts as empty.
    pub fn append_preamble(self, doc: &str) -> (s: Self)
        ensures
            s@ == (AgentSettingsView {
                preamble: Some(preamble_text(self@.preamble) + seq!['\n'] + doc@),
                ..self@
            }),
            self@.preamble matches Some(p) ==> s@.preamble == Some(p + seq!['\n'] + doc@),
            self@.preamble is None ==> s@.preamble == Some(seq!['\n'] + doc@),
    {
        proof { use_type_invariant(&self); }
        let AgentSettings { preamble, static_context, static_tools, max_tokens } = self;
        let text = appended_preamble(preamble, doc);
        AgentSettings { preamble: Some(text), static_context, static_tools, max_tokens }
    }

    /// Adds a static context document with the text `doc`.
    pub fn context(self, doc: &str) -> (s: Self)
        ensures
            s@ == (AgentSettingsView { context: self@.context.push(doc@), ..self@ }),
    {
        proof { use_type_invariant(&self); }
        let AgentSettings { preamble, mut static_context, static_tools, max_tokens } = self;
        let ghost before = static_context@;
        let document = static_context_document(static_context.len(), doc);
        static_context.push(document);
        assert(static_context@.map_values(|d: Document| d.text@)
            =~= before.map_values(|d: Document| d.text@).push(doc@));
        assert forall|i: int| 0 <= i < static_context@.len() implies {
            &&& #[trigger] static_context@[i].id@ == static_doc_id(i as nat)
            &&& static_context@[i].additional_props@.len() == 0
        } by {
            if i < before.len() {
                assert(static_context@[i] == before[i]);
            }
        }
        AgentSettings { preamble, static_context, static_tools, max_tokens }
    }

    /// Adds the tool named `name` to the static tools.
    pub fn tool(self, name: String) -> (s: Self)
        ensures
            s@ == (AgentSettingsView { tools: self@.tools.push(name@), ..self@ }),
    {
        proof { use_type_invariant(&self); }
        let AgentSettings { preamble, static_context, mut static_tools, max_tokens } = self;
        let ghost before = static_tools@;
        static_tools.push(name);
        assert(static_tools@.map_values(|t: String| t@)
            =~= before.map_values(|t: String| t@).push(name@));
        AgentSettings { preamble, static_context, static_tools, max_tokens }
    }

    /// Sets the limit on the tokens of a completion.
    pub fn max_tokens(self, max_tokens: u64) -> (s: Self)
        ensures
            s@ == (AgentSettingsView { max_tokens: Some(max_tokens), ..self@ }),
    {
        proof { use_type_invariant(&self); }
        let AgentSettings { preamble, static_context, static_tools, max_tokens: _ } = self;
        AgentSettings { preamble, static_context, static_tools, max_tokens: Some(max_tokens) }
    }

    /// What the built agent gets: the preamble (the empty text when none was set), the
    /// context documents, each with the id of its place and no further properties, the tool
    /// names and the limit on the tokens.
    pub fn build(self) -> (parts: AgentParts)
        ensures
            parts.preamble@ == preamble_text(self@.preamble),
            self@.preamble matches Some(p) ==> parts.preamble@ == p,
            self@.preamble is None ==> parts.preamble@.len() == 0,
            parts.static_context@.len() == self@.context.len(),
            forall|i: int| 0 <= i < self@.context.len() ==> {
                &&& (#[trigger] parts.static_context@[i]).id@ == static_doc_id(i as nat)
                &&& parts.static_context@[i].text@ == self@.context[i]
                &&& parts.static_context@[i].additional_props@.len() == 0
            },
            parts.static_tools@.map_values(|t: String| t@) == self@.tools,
            parts.max_tokens == self@.max_tokens,
    {
        proof { use_type_invariant(&self); }
        let ghost texts = self@.context;
        let AgentSettings { preamble, static_context, static_tools, max_tokens } = self;
        assert forall|i: int| 0 <= i < texts.len() implies
            (#[trigger] static_context@[i]).text@ == texts[i] by {}
        AgentParts { preamble: built_preamble(preamble), static_context, static_tools, max_tokens }
    }
}

/// The text of a set preamble is that preamble, whole, whatever its length; a missing
/// preamble is the empty text.
pub proof fn law_preamble_text_is_whole(preamble: Seq<char>)
    ensures
        preamble_text(Some(preamble)) == preamble,
        preamble_text(Some(preamble)).len() == preamble.len(),
        preamble_text(None).len() == 0,
{
}

/// The id of the context document at place `i` is `static_doc_` followed by digits that read
/// back as `i`: the first document is `static_doc_0`, the next `static_doc_1`, and so on.
pub proof fn law_static_doc_id_names_its_place(i: nat)
    ensures
        static_doc_id(i).len() > 11,
        static_doc_id(i).take(11) == "static_doc_"@,
        decimal_value(static_doc_id(i).skip(11)) == i,
        forall|k: int| 11 <= k < static_doc_id(i).len() ==> '0' <= #[trigger] static_doc_id(i)[k] <= '9',
{
    reveal_strlit("static_doc_");
    let id = static_doc_id(i);
    assert(id.take(11) =~= "static_doc_"@);
    assert(id.skip(11) =~= decimal(i));
    law_decimal_reads_back(i);
    lemma_decimal_nonempty(i);
    assert forall|k: int| 11 <= k < id.len() implies '0' <= #[trigger] id[k] <= '9' by {
        assert(id[k] == decimal(i)[k - 11]);
    }
}

/// `decimal` writes different numbers differently.
proof fn lemma_decimal_injective(a: nat, b: nat)
    requires
        decimal(a) == decimal(b),
    ensures
        a == b,
    decreases a,
{
    if a >= 10 {
        assert(decimal(a / 10).len() >= 1) by { lemma_decimal_nonempty(a / 10); }
    }
    if b >= 10 {
        assert(decimal(b / 10).len() >= 1) by { lemma_decimal_nonempty(b / 10); }
    }
    if a < 10 && b < 10 {
        assert(decimal(a)[0] == digit(a));
        assert(decimal(b)[0] == digit(b));
        assert(digit(a) == digit(b));
    } else if a < 10 {
        assert(decimal(a).len() == 1);
        assert(decimal(b).len() == decimal(b / 10).len() + 1);
    } else if b < 10 {
        assert(decimal(b).len() == 1);
        assert(decimal(a).len() == decimal(a / 10).len() + 1);
    } else {
        let da = decimal(a);
        let db = decimal(b);
        assert(da.last() == digit(a % 10));
        assert(db.last() == digit(b % 10));
        assert(da.drop_last() =~= decimal(a / 10));
        assert(db.drop_last() =~= decimal(b / 10));
        lemma_decimal_injective(a / 10, b / 10);
        assert(a % 10 == b % 10);
    }
}

/// The decimal digits of a number are never an empty text.
proof fn lemma_decimal_nonempty(n: nat)
    ensures
        decimal(n).len() >= 1,
    decreases n,
{
    if n >= 10 {
        lemma_decimal_nonempty(n / 10);
    }
}

/// Context documents at different places have different ids.
pub proof fn law_static_doc_ids_distinct(i: nat, j: nat)
    requires
        i != j,
    ensures
        static_doc_id(i) != static_doc_id(j),
{
    if static_doc_id(i) == static_doc_id(j) {
        assert(static_doc_id(i).skip(11) =~= decimal(i));
        assert(static_doc_id(j).skip(11) =~= decimal(j));
        lemma_decimal_injective(i, j);
    }
}

} // verus!
