//! Reactions: which there are, how to give and take one, and the list of those
//! who reacted.

use vstd::prelude::*;

use crate::client::LinkedInClient;
use crate::effects::{is_reaction, reaction_is_sent_as_given};
use crate::error::{Error, ErrorView, outcome};
use crate::json::{Json, JsonView, ObjectBuilder, copy_all, models, object};
use crate::request::{GraphqlMutation, GraphqlMutationView};
use crate::text::{capital, decimal, push_decimal, same_text, texts, to_uppercase};
use crate::urn::ActivityUrn;

verus! {

/// The reactions that there are.
pub open spec fn reaction_types() -> Seq<Seq<char>> {
    seq![
        "LIKE"@,
        "PRAISE"@,
        "EMPATHY"@,
        "INTEREST"@,
        "APPRECIATION"@,
        "ENTERTAINMENT"@,
        "CELEBRATION"@,
    ]
}

/// The reactions that there are.
fn valid_reaction_types() -> (types: Vec<&'static str>)
    ensures
        texts(types@) == reaction_types(),
{
    let types = vec![
        "LIKE",
        "PRAISE",
        "EMPATHY",
        "INTEREST",
        "APPRECIATION",
        "ENTERTAINMENT",
        "CELEBRATION",
    ];
    assert(texts(types@) == reaction_types());
    types
}

/// The pieces one after the other, with the separator between them.
pub open spec fn joined(pieces: Seq<Seq<char>>, separator: Seq<char>) -> Seq<char>
    decreases pieces.len(),
{
    if pieces.len() == 0 {
        Seq::empty()
    } else if pieces.len() == 1 {
        pieces[0]
    } else {
        joined(pieces.drop_last(), separator) + separator + pieces.last()
    }
}

fn join(pieces: &Vec<&str>, separator: &str) -> (text: String)
    ensures
        text@ == joined(texts(pieces@), separator@),
{
    let mut text = String::new();
    let ghost all = texts(pieces@);
    for i in 0..pieces.len()
        invariant
            all == texts(pieces@),
            text@ == joined(all.take(i as int), separator@),
    {
        if i > 0 {
            text.append(separator);
        }
        text.append(pieces[i]);
        assert(all.take(i + 1).drop_last() == all.take(i as int));
        assert(i == 0 ==> text@ == all[0]);
    }
    assert(all.take(all.len() as int) == all);
    text
}

/// What becomes of a reaction type whose capital form is `upper`.
pub open spec fn checked_reaction(reaction_type: Seq<char>, upper: Seq<char>) -> Result<
    Seq<char>,
    ErrorView,
> {
    if reaction_types().contains(upper) {
        Ok(upper)
    } else {
        Err(
            ErrorView::InvalidInput(
                "invalid reaction type '"@ + reaction_type + "'. Valid types: "@ + joined(
                    reaction_types(),
                    ", "@,
                ),
            ),
        )
    }
}

/// Accepts or refuses a reaction type, whose capital form is `upper`.
pub fn check_reaction_type(reaction_type: &str, upper: String) -> (checked: Result<String, Error>)
    ensures
        outcome(checked) == checked_reaction(reaction_type@, upper@),
{
    let types = valid_reaction_types();
    for i in 0..types.len()
        invariant
            texts(types@) == reaction_types(),
            forall|j: int| 0 <= j < i ==> reaction_types()[j] != upper@,
    {
        assert(reaction_types()[i as int] == types@[i as int]@);
        if same_text(types[i], upper.as_str()) {
            return Ok(upper);
        }
    }
    let message = "invalid reaction type '".to_owned()
        .concat(reaction_type)
        .concat("'. Valid types: ")
        .concat(join(&types, ", ").as_str());
    Err(Error::invalid(message))
}

/// Returns the reaction type in capital letters, or refuses it where that is
/// not a reaction.
pub fn validate_reaction_type(reaction_type: &str) -> (checked: Result<String, Error>)
    ensures
        outcome(checked) == checked_reaction(reaction_type@, capital(reaction_type@)),
{
    check_reaction_type(reaction_type, to_uppercase(reaction_type))
}

/// The mutation that gives a reaction. The thread and the reaction stand both
/// on the top level and inside `entity`: the service refuses a request that
/// lacks either.
pub open spec fn reaction(thread: Seq<char>, reaction_type: Seq<char>) -> GraphqlMutationView {
    GraphqlMutationView {
        variables: object()
            .entry("threadUrn"@, JsonView::Text(thread))
            .entry("reactionType"@, JsonView::Text(reaction_type))
            .entry(
                "entity"@,
                object()
                    .entry("threadUrn"@, JsonView::Text(thread))
                    .entry("reactionType"@, JsonView::Text(reaction_type)),
            ),
        query_id: "voyagerSocialDashReactions.fd68eadaf15da416b0d839e21399b763"@,
        query_name: "CreateSocialDashReactions"@,
    }
}

/// The mutation that takes a reaction back.
pub open spec fn unreaction(thread: Seq<char>, reaction_type: Seq<char>) -> GraphqlMutationView {
    GraphqlMutationView {
        variables: object()
            .entry("threadUrn"@, JsonView::Text(thread))
            .entry("reactionType"@, JsonView::Text(reaction_type)),
        query_id: "voyagerSocialDashReactions.315cef4773de8e3a0ddad7655cc1685f"@,
        query_name: "DoDeleteReactionSocialDashReactions"@,
    }
}

fn give(thread: &str, reaction_type: &str) -> (mutation: GraphqlMutation)
    ensures
        mutation@ == reaction(thread@, reaction_type@),
{
    let entity = ObjectBuilder::new()
        .field("threadUrn", Json::text(thread))
        .field("reactionType", Json::text(reaction_type))
        .build();
    let variables = ObjectBuilder::new()
        .field("threadUrn", Json::text(thread))
        .field("reactionType", Json::text(reaction_type))
        .field("entity", entity)
        .build();
    GraphqlMutation {
        variables,
        query_id: "voyagerSocialDashReactions.fd68eadaf15da416b0d839e21399b763",
        query_name: "CreateSocialDashReactions",
    }
}

fn take_back(thread: &str, reaction_type: &str) -> (mutation: GraphqlMutation)
    ensures
        mutation@ == unreaction(thread@, reaction_type@),
{
    let variables = ObjectBuilder::new()
        .field("threadUrn", Json::text(thread))
        .field("reactionType", Json::text(reaction_type))
        .build();
    GraphqlMutation {
        variables,
        query_id: "voyagerSocialDashReactions.315cef4773de8e3a0ddad7655cc1685f",
        query_name: "DoDeleteReactionSocialDashReactions",
    }
}

/// The mutation that gives a reaction whose type has the capital form `upper`,
/// or the refusal of the type.
pub open spec fn checked_reaction_mutation(
    thread: Seq<char>,
    reaction_type: Seq<char>,
    upper: Seq<char>,
) -> Result<GraphqlMutationView, ErrorView> {
    match checked_reaction(reaction_type, upper) {
        Ok(checked) => Ok(reaction(thread, checked)),
        Err(error) => Err(error),
    }
}

/// The mutation that takes back a reaction whose type has the capital form
/// `upper`, or the refusal of the type.
pub open spec fn checked_unreaction_mutation(
    thread: Seq<char>,
    reaction_type: Seq<char>,
    upper: Seq<char>,
) -> Result<GraphqlMutationView, ErrorView> {
    match checked_reaction(reaction_type, upper) {
        Ok(checked) => Ok(unreaction(thread, checked)),
        Err(error) => Err(error),
    }
}

/// The mutation that gives a reaction whose type has the capital form `upper`.
pub fn reaction_mutation(thread: &str, reaction_type: &str, upper: String) -> (mutation: Result<
    GraphqlMutation,
    Error,
>)
    ensures
        outcome(mutation) == checked_reaction_mutation(thread@, reaction_type@, upper@),
{
    match check_reaction_type(reaction_type, upper) {
        Ok(checked) => Ok(give(thread, checked.as_str())),
        Err(error) => Err(error),
    }
}

/// The mutation that takes back a reaction whose type has the capital form
/// `upper`.
pub fn unreaction_mutation(thread: &str, reaction_type: &str, upper: String) -> (mutation: Result<
    GraphqlMutation,
    Error,
>)
    ensures
        outcome(mutation) == checked_unreaction_mutation(thread@, reaction_type@, upper@),
{
    match check_reaction_type(reaction_type, upper) {
        Ok(checked) => Ok(take_back(thread, checked.as_str())),
        Err(error) => Err(error),
    }
}

impl LinkedInClient {
    /// The mutation that gives a post a reaction, named in any letter case.
    pub fn react_to_post(&self, thread_urn: &ActivityUrn, reaction_type: &str) -> (mutation: Result<
        GraphqlMutation,
        Error,
    >)
        ensures
            outcome(mutation) == checked_reaction_mutation(
                thread_urn.urn@,
                reaction_type@,
                capital(reaction_type@),
            ),
            mutation is Ok <==> is_reaction(capital(reaction_type@)),
            mutation matches Ok(mutation) ==> {
                let variables = mutation.variables@;
                let upper = capital(reaction_type@);
                &&& variables.text_at("threadUrn"@) == Some(thread_urn.urn@)
                &&& variables.text_at("reactionType"@) == Some(upper)
                &&& variables.field("entity"@) is Some
                &&& variables.field("entity"@)->0.text_at("threadUrn"@) == Some(thread_urn.urn@)
                &&& variables.field("entity"@)->0.text_at("reactionType"@) == Some(upper)
            },
    {
        proof {
            reaction_is_sent_as_given(thread_urn.urn@, reaction_type@, capital(reaction_type@));
        }
        reaction_mutation(thread_urn.urn.as_str(), reaction_type, to_uppercase(reaction_type))
    }

    /// The mutation that takes a reaction to a post back, named in any letter
    /// case.
    pub fn unreact_from_post(&self, thread_urn: &ActivityUrn, reaction_type: &str) -> (mutation:
        Result<GraphqlMutation, Error>)
        ensures
            outcome(mutation) == checked_unreaction_mutation(
                thread_urn.urn@,
                reaction_type@,
                capital(reaction_type@),
            ),
            mutation is Ok <==> is_reaction(capital(reaction_type@)),
            mutation matches Ok(mutation) ==> {
                let variables = mutation.variables@;
                &&& variables.text_at("threadUrn"@) == Some(thread_urn.urn@)
                &&& variables.text_at("reactionType"@) == Some(capital(reaction_type@))
            },
    {
        proof {
            reaction_is_sent_as_given(thread_urn.urn@, reaction_type@, capital(reaction_type@));
        }
        unreaction_mutation(thread_urn.urn.as_str(), reaction_type, to_uppercase(reaction_type))
    }
}

/// The most reactors that one request may ask for.
pub const PAGE_SIZE: u32 = 10;

/// The key under which the reply to a request for reactors holds the page.
pub const REACTIONS_KEY: &'static str = "socialDashReactionsByReactionType";

/// The parameters of a request for `count` reactors from `start` on.
pub open spec fn reactions_params(encoded_urn: Seq<char>, start: u32, count: u32) -> Seq<char> {
    "variables=(count:"@ + decimal(count as nat) + ",start:"@ + decimal(start as nat)
        + ",threadUrn:"@ + encoded_urn
        + ")&queryId=voyagerSocialDashReactions.41ebf31a9f4c4a84e35a49d5abc9010b"@
}

/// The reactors on a page.
pub open spec fn page_elements(page: JsonView) -> Seq<JsonView> {
    match page.items_at("elements"@) {
        Some(elements) => elements,
        None => Seq::empty(),
    }
}

/// How many reactors there are in all, where the page says so.
pub open spec fn page_total(page: JsonView) -> Option<u64> {
    match page.field("paging"@) {
        Some(paging) => paging.unsigned_at("total"@),
        None => None,
    }
}

/// The collection of the reactors to a post, page by page.
#[derive(Debug, PartialEq, Eq)]
pub struct ReactionPager {
    encoded_urn: String,
    start: u32,
    count: u32,
    next_start: u32,
    elements: Vec<Json>,
    total: Option<u64>,
    finished: bool,
}

/// The model of a [`ReactionPager`].
pub ghost struct ReactionPagerView {
    pub encoded_urn: Seq<char>,
    /// Where the caller wants the list to start, and how many reactors.
    pub start: u32,
    pub count: u32,
    /// Where the next page starts.
    pub next_start: u32,
    /// The reactors so far.
    pub elements: Seq<JsonView>,
    /// How many reactors there are in all, as the first page to say so said.
    pub total: Option<u64>,
    /// Whether a page showed that there are no more.
    pub finished: bool,
}

impl View for ReactionPager {
    type V = ReactionPagerView;

    closed spec fn view(&self) -> ReactionPagerView {
        ReactionPagerView {
            encoded_urn: self.encoded_urn@,
            start: self.start,
            count: self.count,
            next_start: self.next_start,
            elements: models(self.elements@),
            total: self.total,
            finished: self.finished,
        }
    }
}

/// The collection before the first page.
pub open spec fn pager(encoded_urn: Seq<char>, start: u32, count: u32) -> ReactionPagerView {
    ReactionPagerView {
        encoded_urn,
        start,
        count,
        next_start: start,
        elements: Seq::empty(),
        total: None,
        finished: false,
    }
}

impl ReactionPagerView {
    /// Unless it is finished, the collection holds no more than was asked for.
    pub open spec fn wf(self) -> bool {
        self.finished || self.elements.len() <= self.count
    }

    /// How many reactors the next request asks for; 0 where none is needed.
    pub open spec fn batch(self) -> u32 {
        if self.finished {
            0
        } else if self.count - self.elements.len() < PAGE_SIZE {
            (self.count - self.elements.len()) as u32
        } else {
            PAGE_SIZE
        }
    }

    /// The parameters of the next request, where one is needed.
    pub open spec fn next_request(self) -> Option<Seq<char>> {
        if self.batch() > 0 {
            Some(reactions_params(self.encoded_urn, self.next_start, self.batch()))
        } else {
            None
        }
    }

    /// The total after a page.
    pub open spec fn total_after(self, page: JsonView) -> Option<u64> {
        match self.total {
            Some(total) => Some(total),
            None => page_total(page),
        }
    }

    /// Whether a page is the last one: it is empty, or it reaches the total.
    pub open spec fn ends_with(self, page: JsonView) -> bool {
        let total = self.total_after(page);
        ||| page_elements(page).len() == 0
        ||| total is Some && self.next_start + self.batch() >= total->0
    }

    /// Whether a page can be taken: the next start stays a 32-bit number, and
    /// where the collection goes on it holds no more than was asked for.
    pub open spec fn page_fits(self, page: JsonView) -> bool {
        page_elements(page).len() > 0 ==> {
            &&& self.next_start + self.batch() <= u32::MAX
            &&& self.ends_with(page) || self.elements.len() + page_elements(page).len()
                <= self.count
        }
    }

    /// The collection with one more page.
    pub open spec fn with_page(self, page: JsonView) -> ReactionPagerView {
        ReactionPagerView {
            next_start: if page_elements(page).len() == 0 {
                self.next_start
            } else {
                (self.next_start + self.batch()) as u32
            },
            elements: self.elements + page_elements(page),
            total: self.total_after(page),
            finished: self.ends_with(page),
            ..self
        }
    }

    /// The list of reactors.
    pub open spec fn result(self) -> JsonView {
        object()
            .entry("elements"@, JsonView::Array(self.elements))
            .entry(
                "paging"@,
                object()
                    .entry("start"@, JsonView::Unsigned(self.start as u64))
                    .entry("count"@, JsonView::Unsigned(self.elements.len() as u64))
                    .entry(
                        "total"@,
                        JsonView::Unsigned(
                            match self.total {
                                Some(total) => total,
                                None => self.elements.len() as u64,
                            },
                        ),
                    ),
            )
    }
}

/// The reactors on a page, and how many there are in all where it says so.
pub fn read_reactions_page(page: &Json) -> (read: (Vec<Json>, Option<u64>))
    ensures
        models(read.0@) == page_elements(page@),
        read.1 == page_total(page@),
{
    let total = match page.get("paging") {
        Some(paging) => paging.unsigned_at("total"),
        None => None,
    };
    let elements = match page.items_at("elements") {
        Some(elements) => copy_all(elements),
        None => {
            let none: Vec<Json> = Vec::new();
            assert(models(none@) == Seq::<JsonView>::empty());
            none
        },
    };
    (elements, total)
}

impl LinkedInClient {
    /// Starts to collect the reactors to a post: `count` of them, from `start`
    /// on. `encode` makes a string fit to stand in a query.
    pub fn get_post_reactions<F: Fn(&str) -> String>(
        &self,
        encode: F,
        activity_urn: &ActivityUrn,
        start: u32,
        count: u32,
    ) -> (reactions: ReactionPager)
        requires
            forall|s: &str| call_requires(encode, (s,)),
        ensures
            reactions@.wf(),
            exists|s: &str, encoded: String|
                {
                    &&& s@ == activity_urn.urn@
                    &&& #[trigger] call_ensures(encode, (s,), encoded)
                    &&& reactions@ == pager(encoded@, start, count)
                },
    {
        let encoded = encode(activity_urn.urn.as_str());
        ReactionPager::new(encoded, start, count)
    }
}

impl ReactionPager {
    /// The collection before the first page.
    pub fn new(encoded_urn: String, start: u32, count: u32) -> (reactions: ReactionPager)
        ensures
            reactions@ == pager(encoded_urn@, start, count),
            reactions@.wf(),
    {
        let elements: Vec<Json> = Vec::new();
        assert(models(elements@) == Seq::<JsonView>::empty());
        ReactionPager {
            encoded_urn,
            start,
            count,
            next_start: start,
            elements,
            total: None,
            finished: false,
        }
    }

    fn batch(&self) -> (batch: u32)
        requires
            self@.wf(),
        ensures
            batch == self@.batch(),
    {
        if self.finished {
            return 0;
        }
        let missing: u32 = self.count - self.elements.len() as u32;
        if missing < PAGE_SIZE {
            missing
        } else {
            PAGE_SIZE
        }
    }

    /// The parameters of the next request, or `None` where the collection is
    /// complete.
    pub fn next_request(&self) -> (params: Option<String>)
        requires
            self@.wf(),
        ensures
            match params {
                Some(params) => self@.next_request() == Some(params@),
                None => self@.next_request() is None,
            },
    {
        let batch = self.batch();
        if batch == 0 {
            return None;
        }
        let mut params = "variables=(count:".to_owned();
        push_decimal(&mut params, batch as u64);
        params.append(",start:");
        push_decimal(&mut params, self.next_start as u64);
        params.append(",threadUrn:");
        params.append(self.encoded_urn.as_str());
        params.append(")&queryId=voyagerSocialDashReactions.41ebf31a9f4c4a84e35a49d5abc9010b");
        Some(params)
    }

    /// Whether a page can be taken.
    pub fn page_fits(&self, page: &Json) -> (fits: bool)
        requires
            self@.wf(),
        ensures
            fits == self@.page_fits(page@),
    {
        let (elements, page_total) = read_reactions_page(page);
        if elements.len() == 0 {
            return true;
        }
        let batch = self.batch();
        if self.next_start > u32::MAX - batch {
            return false;
        }
        let reached = (self.next_start + batch) as u64;
        let total = match self.total {
            Some(total) => Some(total),
            None => page_total,
        };
        if let Some(total) = total {
            if reached >= total {
                return true;
            }
        }
        let held = self.elements.len();
        let count = self.count as usize;
        held <= count && elements.len() <= count - held
    }

    /// Takes the page that the request which is due brought.
    pub fn take_page(&mut self, page: &Json)
        requires
            old(self)@.wf(),
            old(self)@.next_request() is Some,
            old(self)@.page_fits(page@),
        ensures
            final(self)@ == old(self)@.with_page(page@),
            final(self)@.wf(),
            page@.items_at("elements"@) matches Some(elements) ==> final(self)@.elements
                == old(self)@.elements + elements,
    {
        let batch = self.batch();
        let (mut elements, page_total) = read_reactions_page(page);
        if self.total.is_none() {
            self.total = page_total;
        }
        if elements.len() == 0 {
            self.finished = true;
            assert(self@.elements == old(self)@.elements + page_elements(page@));
            return;
        }
        let ghost before = models(self.elements@);
        let ghost added = models(elements@);
        self.elements.append(&mut elements);
        assert(models(self.elements@) == before + added);
        self.next_start = self.next_start + batch;
        self.finished = match self.total {
            Some(total) => self.next_start as u64 >= total,
            None => false,
        };
    }

    /// The list of reactors.
    pub fn result(self) -> (list: Json)
        ensures
            list@ == self@.result(),
    {
        let held = self.elements.len() as u64;
        let total: u64 = match self.total {
            Some(total) => total,
            None => held,
        };
        let paging = ObjectBuilder::new()
            .field("start", Json::Unsigned(self.start as u64))
            .field("count", Json::Unsigned(held))
            .field("total", Json::Unsigned(total))
            .build();
        ObjectBuilder::new()
            .field("elements", Json::array(self.elements))
            .field("paging", paging)
            .build()
    }
}

}
