//! The notification forwarder: which accessory an identity stands for, and
//! the webhook call that a reading becomes.

use std::collections::HashMap;
use vstd::prelude::*;
use vstd::std_specs::hash::*;
use vstd::string::*;
use crate::msg::texts;
use crate::msg::AccessoryType;
use crate::msg::ReadingView;
use crate::msg::SensorReading;
use crate::msg::SetupMetrics;
use crate::msg::SetupView;
use crate::msg::Value;
use crate::utils::same;
use crate::utils::flag;
use crate::utils::flag_text;

verus! {

/// The text that `dyn_fmt` makes of a template and its arguments: each `{}`
/// of the template gives way to the next argument.
pub uninterp spec fn dyn_format(template: Seq<char>, args: Seq<Seq<char>>) -> Seq<char>;

/// Calls `dyn_fmt::AsStrFormatExt::format` on the template with the
/// arguments in their order. The contract only names the result.
#[verifier::external_body]
fn format_template(template: &str, args: &Vec<String>) -> (r: String)
    ensures
        r@ == dyn_format(template@, texts(args@)),
{
    dyn_fmt::AsStrFormatExt::format(&template, args.iter())
}

/// The query template of a category: accessory first, value second.
pub open spec fn template_of(t: Option<AccessoryType>) -> Seq<char> {
    match t {
        Some(AccessoryType::Temperature) => "accessoryId={}-temperature&value={}"@,
        Some(AccessoryType::Pressure) => "accessoryId={}-pressure&value={}"@,
        Some(AccessoryType::Humidity) => "accessoryId={}-humidity&value={}"@,
        Some(AccessoryType::GasResistance) => "accessoryId={}-gasresistance&value={}"@,
        Some(AccessoryType::Switch) => "accessoryId={}-switch&state={}"@,
        _ => "accessoryId={}&value={}"@,
    }
}

/// The second argument of the template: the scalar's text, and for a switch
/// whether that text is `0.0`.
pub open spec fn state_argument(t: Option<AccessoryType>, text: Seq<char>) -> Seq<char> {
    match t {
        Some(AccessoryType::Switch) => flag(text == "0.0"@),
        _ => text,
    }
}

/// The query of the webhook call for a reading: for a scalar the category's
/// template filled with the accessory and the scalar's text, for a step the
/// empty text.
pub open spec fn state_str(
    accessory_id: Seq<char>,
    t: Option<AccessoryType>,
    val: Value,
    text: Seq<char>,
) -> Seq<char> {
    match val {
        Value::Simple(_) => dyn_format(template_of(t), seq![accessory_id, state_argument(t, text)]),
        _ => Seq::empty(),
    }
}

fn template_for(t: Option<AccessoryType>) -> (s: &'static str)
    ensures
        s@ == template_of(t),
{
    match t {
        Some(AccessoryType::Temperature) => "accessoryId={}-temperature&value={}",
        Some(AccessoryType::Pressure) => "accessoryId={}-pressure&value={}",
        Some(AccessoryType::Humidity) => "accessoryId={}-humidity&value={}",
        Some(AccessoryType::GasResistance) => "accessoryId={}-gasresistance&value={}",
        Some(AccessoryType::Switch) => "accessoryId={}-switch&state={}",
        _ => "accessoryId={}&value={}",
    }
}

fn pair_of(a: &str, b: String) -> (v: Vec<String>)
    ensures
        texts(v@) == seq![a@, b@],
{
    let mut v: Vec<String> = Vec::new();
    v.push(String::from_str(a));
    v.push(b);
    assert(texts(v@) =~= seq![a@, b@]);
    v
}

/// Composes the query of the webhook call for one reading. `text` is the
/// scalar of `val` in decimal notation.
pub fn match_state_str(accessory_id: &str, t: Option<AccessoryType>, val: Value, text: &str) -> (s:
    String)
    ensures
        s@ == state_str(accessory_id@, t, val, text@),
{
    match val {
        Value::Simple(_) => {
            let second = match t {
                Some(AccessoryType::Switch) => flag_text(same(text, "0.0")),
                _ => String::from_str(text),
            };
            let args = pair_of(accessory_id, second);
            format_template(template_for(t), &args)
        },
        _ => String::new(),
    }
}

/// The accessories of a forwarder: identity to accessory name.
pub type Accessories = Map<u128, Seq<char>>;

/// The webhook call of a reading: nothing where its identity is not
/// registered, else the endpoint template filled with the reading's query.
pub open spec fn call_for(
    names: Accessories,
    url: Seq<char>,
    r: ReadingView,
    text: Seq<char>,
) -> Option<Seq<char>> {
    if names.contains_key(r.id) {
        Some(dyn_format(url, seq![state_str(names[r.id], r.accessory_type, r.reading, text)]))
    } else {
        None
    }
}

/// A reading concerns the accessory of its own identity and no other: the
/// call is the same in any two forwarders that agree on that identity.
pub proof fn lemma_call_reads_own_binding(
    a: Accessories,
    b: Accessories,
    url: Seq<char>,
    r: ReadingView,
    text: Seq<char>,
)
    requires
        a.contains_key(r.id) == b.contains_key(r.id),
        a.contains_key(r.id) ==> a[r.id] == b[r.id],
    ensures
        call_for(a, url, r, text) == call_for(b, url, r, text),
{
}

/// Identity to accessory name, and the endpoint template.
pub struct WebHookCollector {
    metrics: HashMap<u128, String>,
    url: String,
}

impl WebHookCollector {
    /// The accessories that are registered.
    pub closed spec fn names(&self) -> Accessories {
        self.metrics@.map_values(|s: String| s@)
    }

    /// The endpoint template.
    pub closed spec fn endpoint(&self) -> Seq<char> {
        self.url@
    }

    /// A forwarder for the endpoint template `url`, without accessories.
    pub fn new(url: String) -> (r: WebHookCollector)
        ensures
            r.names() == Accessories::empty(),
            r.endpoint() == url@,
    {
        let r = WebHookCollector { metrics: HashMap::new(), url };
        assert(r.names() =~= Accessories::empty());
        r
    }

    /// A registration, gauge or counter: the identity is bound to the name,
    /// whatever it was bound to before.
    pub fn register(&mut self, msg: SetupMetrics)
        ensures
            final(self).names() == old(self).names().insert(msg@.id, msg@.name),
            final(self).endpoint() == old(self).endpoint(),
    {
        broadcast use group_hash_axioms;

        let ghost s = msg@;
        match msg {
            SetupMetrics::Gauge(id, name, _) => {
                self.metrics.insert(id, name);
            },
            SetupMetrics::Counter(id, name, _) => {
                self.metrics.insert(id, name);
            },
        }
        assert(self.names() =~= old(self).names().insert(s.id, s.name));
    }

    /// A reading: `None` where the identity is not registered (the reading is
    /// dropped), else the address of the webhook call. `text` is the
    /// reading's scalar in decimal notation. The forwarder does not change.
    pub fn reading(&self, msg: &SensorReading, text: &str) -> (r: Option<String>)
        ensures
            match r {
                Some(u) => call_for(self.names(), self.endpoint(), msg@, text@) == Some(u@),
                None => call_for(self.names(), self.endpoint(), msg@, text@) is None,
            },
    {
        broadcast use group_hash_axioms;

        match self.metrics.get(&msg.id) {
            Some(accessory_id) => {
                let s = match_state_str(accessory_id.as_str(), msg.accessory_type, msg.reading, text);
                let mut args: Vec<String> = Vec::new();
                args.push(s);
                assert(texts(args@) =~= seq![
                    state_str(self.names()[msg.id], msg.accessory_type, msg.reading, text@),
                ]);
                Some(format_template(self.url.as_str(), &args))
            },
            None => None,
        }
    }
}

} // verus!
