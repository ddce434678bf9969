use hal_orders::json::{Json, Member};
use hal_orders::link::Link;
use hal_orders::number::Float;
use hal_orders::order::order_href;
use hal_orders::projector::{
    project, Cell, ColumnDescriptor, DeclaredType, Diagnostic, ProjectionError, Row,
};
use hal_orders::value::StateValue;

fn column(name: &str, declared_type: DeclaredType) -> ColumnDescriptor {
    ColumnDescriptor { name: name.to_string(), declared_type }
}

fn float_cell(value: f64) -> Cell {
    Cell::Float64(Float::from_numeral(&format!("{:?}", value)))
}

fn text_cell(value: &str) -> Cell {
    Cell::Text(value.to_string())
}

fn order_columns() -> Vec<ColumnDescriptor> {
    vec![
        column("order_id", DeclaredType::Int32),
        column("total", DeclaredType::Float64),
        column("currency", DeclaredType::Text),
        column("status", DeclaredType::Text),
    ]
}

fn order_row(order_id: i32, total: f64, currency: &str, status: &str) -> Row {
    Row::new()
        .with("order_id", Cell::Int32(order_id))
        .with("total", float_cell(total))
        .with("currency", text_cell(currency))
        .with("status", text_cell(status))
}

#[test]
fn a_row_is_read_by_name_and_by_place() {
    let row = order_row(123, 20.0, "USD", "processing");
    assert_eq!(row.len(), 4);
    assert_eq!(row.get("order_id"), Some(&Cell::Int32(123)));
    assert_eq!(row.get("status"), Some(&text_cell("processing")));
    assert_eq!(row.get("missing"), None);
    assert_eq!(row.get_at(1), Some(&float_cell(20.0)));
    assert_eq!(row.get_at(4), None);
    assert_eq!(Row::new().len(), 0);
}

#[test]
fn a_name_that_occurs_twice_reads_the_first_cell() {
    let row = Row::new().with("a", Cell::Int32(1)).with("a", Cell::Int32(2));
    assert_eq!(row.get("a"), Some(&Cell::Int32(1)));
    assert_eq!(row.get_at(1), Some(&Cell::Int32(2)));
}

#[test]
fn each_column_gives_one_state_key_in_column_order() {
    let projection = project(&order_columns(), &order_row(123, 20.0, "USD", "processing")).unwrap();
    assert!(projection.diagnostics.is_empty());
    let doc = projection.document;
    assert!(doc.self_link().is_none());
    assert_eq!(
        doc.state_keys(),
        &vec!["order_id".to_string(), "total".to_string(), "currency".to_string(), "status".to_string()]
    );
    assert_eq!(doc.state("order_id"), Some(&StateValue::Int(123)));
    assert_eq!(doc.state("total"), Some(&StateValue::Float(Float::from_numeral("20.0"))));
    assert_eq!(doc.state("currency"), Some(&StateValue::Text("USD".to_string())));
    assert_eq!(
        doc.to_json(),
        Json::object(vec![
            Member::new("order_id", Json::Int(123)),
            Member::new("total", Json::Number(hal_orders::number::Decimal::parse("20.0").unwrap())),
            Member::new("currency", Json::text("USD")),
            Member::new("status", Json::text("processing")),
        ])
    );
    assert_eq!(
        doc.to_json().render(),
        "{\"order_id\":123,\"total\":20.0,\"currency\":\"USD\",\"status\":\"processing\"}"
    );
}

#[test]
fn columns_are_taken_in_their_own_order_not_that_of_the_row() {
    let columns = vec![column("status", DeclaredType::Text), column("order_id", DeclaredType::Int32)];
    let doc = project(&columns, &order_row(7, 1.0, "EUR", "new")).unwrap().document;
    assert_eq!(doc.to_json().render(), "{\"status\":\"new\",\"order_id\":7}");
}

#[test]
fn an_integer_is_widened() {
    let columns = vec![column("low", DeclaredType::Int32), column("high", DeclaredType::Int32)];
    let row = Row::new().with("low", Cell::Int32(i32::MIN)).with("high", Cell::Int32(i32::MAX));
    let doc = project(&columns, &row).unwrap().document;
    assert_eq!(doc.state("low"), Some(&StateValue::Int(-2147483648)));
    assert_eq!(doc.state("high"), Some(&StateValue::Int(2147483647)));
    assert_eq!(doc.to_json().render(), "{\"low\":-2147483648,\"high\":2147483647}");
}

#[test]
fn a_float_that_is_not_finite_is_written_as_null() {
    let columns = vec![column("total", DeclaredType::Float64)];
    let row = Row::new().with("total", float_cell(f64::NAN));
    let doc = project(&columns, &row).unwrap().document;
    assert_eq!(doc.state("total"), Some(&StateValue::Float(Float::NonFinite)));
    assert_eq!(doc.to_json().render(), "{\"total\":null}");
}

#[test]
fn a_column_of_another_type_gives_null_and_one_diagnostic() {
    let columns = vec![
        column("order_id", DeclaredType::Int32),
        column("placed", DeclaredType::Other("timestamp".to_string())),
        column("status", DeclaredType::Text),
    ];
    let row = Row::new()
        .with("order_id", Cell::Int32(5))
        .with("placed", Cell::Unreadable)
        .with("status", text_cell("new"));
    let projection = project(&columns, &row).unwrap();
    assert_eq!(
        projection.diagnostics,
        vec![Diagnostic { column: "placed".to_string(), type_tag: "timestamp".to_string() }]
    );
    assert_eq!(projection.document.state("placed"), Some(&StateValue::Null));
    assert_eq!(
        projection.document.to_json().render(),
        "{\"order_id\":5,\"placed\":null,\"status\":\"new\"}"
    );
}

#[test]
fn a_column_of_another_type_is_not_read() {
    let columns = vec![column("blob", DeclaredType::Other("bytea".to_string()))];
    let with_text = Row::new().with("blob", text_cell("readable after all"));
    assert_eq!(project(&columns, &with_text).unwrap().document.state("blob"), Some(&StateValue::Null));
    let projection = project(&columns, &Row::new()).unwrap();
    assert_eq!(projection.document.to_json().render(), "{\"blob\":null}");
    assert_eq!(projection.diagnostics.len(), 1);
}

#[test]
fn diagnostics_come_in_column_order() {
    let columns = vec![
        column("a", DeclaredType::Other("uuid".to_string())),
        column("b", DeclaredType::Text),
        column("c", DeclaredType::Other("json".to_string())),
    ];
    let row = Row::new().with("b", text_cell("x"));
    let projection = project(&columns, &row).unwrap();
    assert_eq!(
        projection.diagnostics,
        vec![
            Diagnostic { column: "a".to_string(), type_tag: "uuid".to_string() },
            Diagnostic { column: "c".to_string(), type_tag: "json".to_string() },
        ]
    );
    assert_eq!(projection.document.to_json().render(), "{\"a\":null,\"b\":\"x\",\"c\":null}");
}

#[test]
fn no_columns_give_an_empty_document() {
    let projection = project(&vec![], &order_row(1, 1.0, "USD", "new")).unwrap();
    assert_eq!(projection.document.to_json().render(), "{}");
    assert!(projection.diagnostics.is_empty());
}

#[test]
fn a_cell_of_another_type_than_declared_fails_the_projection() {
    let columns = vec![column("order_id", DeclaredType::Int32), column("total", DeclaredType::Float64)];
    let row = Row::new().with("order_id", Cell::Int32(1)).with("total", text_cell("20.0"));
    assert_eq!(project(&columns, &row), Err(ProjectionError::Unreadable(1)));
    let row = Row::new().with("order_id", float_cell(1.0)).with("total", float_cell(2.0));
    assert_eq!(project(&columns, &row), Err(ProjectionError::Unreadable(0)));
    let row = Row::new().with("order_id", Cell::Unreadable).with("total", Cell::Unreadable);
    assert_eq!(project(&columns, &row), Err(ProjectionError::Unreadable(0)));
    let columns = vec![column("name", DeclaredType::Text)];
    let row = Row::new().with("name", Cell::Int32(1));
    assert_eq!(project(&columns, &row), Err(ProjectionError::Unreadable(0)));
}

#[test]
fn a_column_that_the_row_lacks_fails_the_projection() {
    let columns = vec![column("order_id", DeclaredType::Int32), column("total", DeclaredType::Float64)];
    let row = Row::new().with("order_id", Cell::Int32(1));
    assert_eq!(project(&columns, &row), Err(ProjectionError::Unreadable(1)));
}

#[test]
fn a_column_with_a_reserved_name_fails_the_projection() {
    let columns = vec![column("ok", DeclaredType::Int32), column("_links", DeclaredType::Text)];
    let row = Row::new().with("ok", Cell::Int32(1)).with("_links", text_cell("x"));
    assert_eq!(project(&columns, &row), Err(ProjectionError::ReservedName(1)));
    let columns = vec![column("_embedded", DeclaredType::Other("json".to_string()))];
    assert_eq!(project(&columns, &Row::new()), Err(ProjectionError::ReservedName(0)));
}

#[test]
fn the_first_column_at_fault_decides_the_error() {
    let columns = vec![
        column("_links", DeclaredType::Int32),
        column("gone", DeclaredType::Text),
    ];
    let row = Row::new().with("_links", Cell::Int32(1));
    assert_eq!(project(&columns, &row), Err(ProjectionError::ReservedName(0)));
    let row = Row::new().with("_links", text_cell("x"));
    assert_eq!(project(&columns, &row), Err(ProjectionError::Unreadable(0)));
}

#[test]
fn columns_of_one_name_share_one_state_key() {
    let columns = vec![
        column("a", DeclaredType::Int32),
        column("b", DeclaredType::Text),
        column("a", DeclaredType::Int32),
    ];
    let row = Row::new().with("a", Cell::Int32(1)).with("b", text_cell("x")).with("a", Cell::Int32(2));
    let doc = project(&columns, &row).unwrap().document;
    assert_eq!(doc.to_json().render(), "{\"a\":1,\"b\":\"x\"}");
}

#[test]
fn a_projected_order_with_its_self_link_is_the_order_document() {
    let projection = project(&order_columns(), &order_row(124, 30.0, "USD", "shipping")).unwrap();
    let doc = projection.document.add_link("self", Link::new(&order_href(124))).unwrap();
    assert_eq!(
        doc.to_json().render(),
        "{\"order_id\":124,\"total\":30.0,\"currency\":\"USD\",\"status\":\"shipping\",\
         \"_links\":{\"self\":{\"href\":\"https://www.example.com/orders/124\"}}}"
    );
    let projection = project(&order_columns(), &order_row(123, 20.0, "USD", "processing")).unwrap();
    let doc = projection.document.add_link("self", Link::new(&order_href(123))).unwrap();
    assert_eq!(
        doc.to_json().render(),
        "{\"order_id\":123,\"total\":20.0,\"currency\":\"USD\",\"status\":\"processing\",\
         \"_links\":{\"self\":{\"href\":\"https://www.example.com/orders/123\"}}}"
    );
}

#[test]
fn a_whole_total_is_written_with_a_fraction() {
    let columns = vec![column("total", DeclaredType::Float64)];
    let row = Row::new().with("total", Cell::Float64(Float::from_numeral("30")));
    let text = project(&columns, &row).unwrap().document.to_json().render();
    assert_eq!(text, "{\"total\":30.0}");
}
