//! Orders, and where their documents live.

use vstd::prelude::*;
use vstd::string::StringExecFns;
use crate::assoc::{keys_of, lemma_position_is};
use crate::link::LinkView;
use crate::model::{lemma_reserved_names, DocumentError, ResourceView};
use crate::number::Float;
use crate::resource::Resource;
use crate::text::{append_decimal, decimal_text};
use crate::value::{StateValue, ValueView};

verus! {

/// An order.
#[derive(Debug, PartialEq, Eq)]
pub struct Order {
    pub order_id: i32,
    pub total: Float,
    pub currency: String,
    pub status: String,
}

/// The address of the document of an order: the address of the orders,
/// followed by the number of the order in decimal.
pub open spec fn order_address(order_id: int) -> Seq<char> {
    "https://www.example.com/orders/"@ + decimal_text(order_id)
}

/// The document of an order: a self link to its address, and its total,
/// currency and status as state attributes, in this order.
pub open spec fn order_document(
    order_id: int,
    total: Option<Seq<char>>,
    currency: Seq<char>,
    status: Seq<char>,
) -> ResourceView {
    ResourceView {
        self_link: Some(LinkView::to(order_address(order_id))),
        state: seq![
            ("total"@, ValueView::Float(total)),
            ("currency"@, ValueView::Text(currency)),
            ("status"@, ValueView::Text(status)),
        ],
        ..ResourceView::empty()
    }
}

/// The document of an order is what the operations build from the empty
/// document.
pub proof fn lemma_order_document(
    order_id: int,
    total: Option<Seq<char>>,
    currency: Seq<char>,
    status: Seq<char>,
)
    ensures
        ResourceView::empty().with_self(order_address(order_id)) matches Ok(a) && a.add_state(
            "total"@,
            ValueView::Float(total),
        ) matches Ok(b) && b.add_state("currency"@, ValueView::Text(currency)) matches Ok(c)
            && c.add_state("status"@, ValueView::Text(status)) == Ok::<
            ResourceView,
            DocumentError,
        >(order_document(order_id, total, currency, status)),
{
    lemma_reserved_names();
    reveal_strlit("total");
    reveal_strlit("currency");
    reveal_strlit("status");
    reveal_strlit("_links");
    assert("total"@.len() == 5 && "currency"@.len() == 8 && "status"@.len() == 6);
    assert("status"@[0] == 's' && "_links"@[0] == '_');
    let a = ResourceView::empty().with_self(order_address(order_id))->Ok_0;
    let b = a.add_state("total"@, ValueView::Float(total))->Ok_0;
    assert(b.state =~= seq![("total"@, ValueView::Float(total))]);
    let c = b.add_state("currency"@, ValueView::Text(currency))->Ok_0;
    assert(keys_of(b.state) =~= seq!["total"@]);
    lemma_position_is(keys_of(b.state), "currency"@, 1);
    assert(c.state =~= seq![
        ("total"@, ValueView::Float(total)),
        ("currency"@, ValueView::Text(currency)),
    ]);
    assert(keys_of(c.state) =~= seq!["total"@, "currency"@]);
    lemma_position_is(keys_of(c.state), "status"@, 2);
    let d = c.add_state("status"@, ValueView::Text(status))->Ok_0;
    assert(d.state =~= order_document(order_id, total, currency, status).state);
}

/// The address of the document of the order with the given number.
pub fn order_href(order_id: i32) -> (href: String)
    ensures
        href@ == order_address(order_id as int),
{
    let mut href = String::from_str("https://www.example.com/orders/");
    append_decimal(&mut href, order_id as i64);
    href
}

impl Order {
    /// The document of the order.
    pub fn to_hal(self) -> (document: Resource)
        ensures
            document@ == order_document(
                self.order_id as int,
                self.total@,
                self.currency@,
                self.status@,
            ),
            document@.wf(),
    {
        proof {
            lemma_order_document(self.order_id as int, self.total@, self.currency@, self.status@);
        }
        let href = order_href(self.order_id);
        let a = match Resource::new().with_self(href.as_str()) {
            Ok(document) => document,
            Err(_) => Resource::new(),
        };
        let b = match a.add_state("total", StateValue::Float(self.total)) {
            Ok(document) => document,
            Err(_) => Resource::new(),
        };
        let c = match b.add_state("currency", StateValue::Text(self.currency)) {
            Ok(document) => document,
            Err(_) => Resource::new(),
        };
        match c.add_state("status", StateValue::Text(self.status)) {
            Ok(document) => document,
            Err(_) => Resource::new(),
        }
    }
}

} // verus!
