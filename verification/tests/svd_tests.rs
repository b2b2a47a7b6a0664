use svd_parser::device::Device;
use svd_parser::error::SvdError;
use svd_parser::xml::Attribute;
use svd_parser::xml::Element;

fn elem(name: &str) -> Element {
    Element { name: name.to_string(), attributes: Vec::new(), children: Vec::new(), text: None }
}

fn text_elem(name: &str, text: &str) -> Element {
    Element {
        name: name.to_string(),
        attributes: Vec::new(),
        children: Vec::new(),
        text: Some(text.to_string()),
    }
}

fn device_elem(schema_version: &str) -> Element {
    let mut e = elem("device");
    e.attributes.push(Attribute {
        name: "schemaVersion".to_string(),
        value: schema_version.to_string(),
    });
    e
}

fn child<'a>(e: &'a Element, name: &str) -> Option<&'a Element> {
    e.children.iter().find(|c| c.name == name)
}

#[test]
fn scenario_minimal_device_parses() {
    let mut root = device_elem("1.3");
    root.children.push(text_elem("name", "ACME32"));
    let mut peripherals = elem("peripherals");
    peripherals.children.push(elem("peripheral"));
    root.children.push(peripherals);

    let d = Device::parse(&root).unwrap();
    assert_eq!(d.name, "ACME32");
    assert_eq!(d.schema_version(), "1.3");
    assert!(d.cpu.is_none());
    assert!(d.description.is_none());
    assert_eq!(d.peripherals.len(), 1);
}

#[test]
fn scenario_minimal_device_encodes() {
    let mut root = device_elem("1.3");
    root.children.push(text_elem("name", "ACME32"));
    let mut peripherals = elem("peripherals");
    peripherals.children.push(elem("peripheral"));
    root.children.push(peripherals);

    let d = Device::parse(&root).unwrap();
    let e = d.encode().unwrap();
    assert_eq!(e.name, "device");
    let sv = e.attributes.iter().find(|a| a.name == "schemaVersion").unwrap();
    assert_eq!(sv.value, "1.3");
    let xmlns = e.attributes.iter().find(|a| a.name == "xmlns:xs").unwrap();
    assert_eq!(xmlns.value, "http://www.w3.org/2001/XMLSchema-instance");
    let loc = e.attributes.iter().find(|a| a.name == "xs:noNamespaceSchemaLocation").unwrap();
    assert_eq!(loc.value, "CMSIS-SVD_Schema_1.3.xsd");
    let name = child(&e, "name").unwrap();
    assert_eq!(name.text.as_deref(), Some("ACME32"));
    let ps = child(&e, "peripherals").unwrap();
    assert_eq!(ps.children.len(), 1);
    assert_eq!(ps.children[0].name, "peripheral");
}

#[test]
fn description_round_trips_and_does_not_leak_into_address_unit_bits() {
    let mut root = device_elem("1.1");
    root.children.push(text_elem("name", "Widgetron"));
    root.children.push(text_elem("description", "Widget"));
    root.children.push(elem("peripherals"));

    let d = Device::parse(&root).unwrap();
    assert_eq!(d.description.as_deref(), Some("Widget"));
    assert!(d.address_unit_bits.is_none());

    let e = d.encode().unwrap();
    let desc = child(&e, "description").unwrap();
    assert_eq!(desc.text.as_deref(), Some("Widget"));
    assert!(child(&e, "addressUnitBits").is_none());
}

#[test]
fn missing_name_is_reported() {
    let mut root = device_elem("1.1");
    root.children.push(elem("peripherals"));
    match Device::parse(&root) {
        Err(SvdError::MissingElement(n)) => assert_eq!(n, "name"),
        other => panic!("expected a missing-element error, got {:?}", other.map(|_| ())),
    }
}

#[test]
fn missing_peripherals_is_reported() {
    let mut root = device_elem("1.1");
    root.children.push(text_elem("name", "NoPeriphs"));
    match Device::parse(&root) {
        Err(SvdError::MissingElement(n)) => assert_eq!(n, "peripherals"),
        other => panic!("expected a missing-element error, got {:?}", other.map(|_| ())),
    }
}

#[test]
fn missing_schema_version_is_reported() {
    let mut root = elem("device");
    root.children.push(text_elem("name", "NoSchema"));
    root.children.push(elem("peripherals"));
    match Device::parse(&root) {
        Err(SvdError::MissingAttribute(n)) => assert_eq!(n, "schemaVersion"),
        other => panic!("expected a missing-attribute error, got {:?}", other.map(|_| ())),
    }
}

#[test]
fn malformed_address_unit_bits_is_reported() {
    let mut root = device_elem("1.1");
    root.children.push(text_elem("name", "BadBits"));
    root.children.push(text_elem("addressUnitBits", "eight"));
    root.children.push(elem("peripherals"));
    match Device::parse(&root) {
        Err(SvdError::MalformedNumber(t)) => assert_eq!(t, "eight"),
        other => panic!("expected a malformed-number error, got {:?}", other.map(|_| ())),
    }
}

#[test]
fn empty_peripherals_container_is_valid() {
    let mut root = device_elem("1.1");
    root.children.push(text_elem("name", "Bare"));
    root.children.push(elem("peripherals"));
    let d = Device::parse(&root).unwrap();
    assert_eq!(d.peripherals.len(), 0);
}

#[test]
fn numeric_fields_accept_decimal_and_hex() {
    for (text, expected) in [("8", 8u32), ("0x20", 32), ("0X1f", 31), ("4294967295", u32::MAX)] {
        let mut root = device_elem("1.1");
        root.children.push(text_elem("name", "Numeric"));
        root.children.push(text_elem("addressUnitBits", text));
        root.children.push(elem("peripherals"));
        let d = Device::parse(&root).unwrap();
        assert_eq!(d.address_unit_bits, Some(expected), "input {:?}", text);
    }
}

#[test]
fn numeric_overflow_is_malformed() {
    for text in ["4294967296", "0x100000000", "0x", "12a", ""] {
        let mut root = device_elem("1.1");
        root.children.push(text_elem("name", "Overflow"));
        root.children.push(text_elem("addressUnitBits", text));
        root.children.push(elem("peripherals"));
        assert!(
            matches!(Device::parse(&root), Err(SvdError::MalformedNumber(_))),
            "input {:?}",
            text
        );
    }
}

#[test]
fn scalar_text_is_trimmed() {
    let mut root = device_elem("1.1");
    root.children.push(text_elem("name", "  STM99\n\t"));
    root.children.push(text_elem("version", " 1.0 "));
    root.children.push(elem("peripherals"));
    let d = Device::parse(&root).unwrap();
    assert_eq!(d.name, "STM99");
    assert_eq!(d.version.as_deref(), Some("1.0"));
}

#[test]
fn cpu_requires_name() {
    let mut root = device_elem("1.1");
    root.children.push(text_elem("name", "HasCpu"));
    root.children.push(elem("cpu"));
    root.children.push(elem("peripherals"));
    match Device::parse(&root) {
        Err(SvdError::MissingElement(n)) => assert_eq!(n, "name"),
        other => panic!("expected the cpu failure to propagate, got {:?}", other.map(|_| ())),
    }
}

#[test]
fn cpu_fields_round_trip() {
    let mut root = device_elem("1.2");
    root.children.push(text_elem("name", "WithCpu"));
    let mut cpu = elem("cpu");
    cpu.children.push(text_elem("name", "CM4"));
    cpu.children.push(text_elem("revision", "r0p1"));
    cpu.children.push(text_elem("endian", "little"));
    cpu.children.push(text_elem("nvicPrioBits", "4"));
    root.children.push(cpu);
    root.children.push(elem("peripherals"));

    let d = Device::parse(&root).unwrap();
    let c = d.cpu.as_ref().unwrap();
    assert_eq!(c.name, "CM4");
    assert_eq!(c.revision.as_deref(), Some("r0p1"));
    assert_eq!(c.endian.as_deref(), Some("little"));
    assert_eq!(c.nvic_prio_bits, Some(4));

    let e = d.encode().unwrap();
    let d2 = Device::parse(&e).unwrap();
    let c2 = d2.cpu.as_ref().unwrap();
    assert_eq!(c2.name, "CM4");
    assert_eq!(c2.revision.as_deref(), Some("r0p1"));
    assert_eq!(c2.endian.as_deref(), Some("little"));
    assert_eq!(c2.nvic_prio_bits, Some(4));
}

#[test]
fn peripheral_fields_and_defaults_parse() {
    let mut root = device_elem("1.1");
    root.children.push(text_elem("name", "Periphs"));
    let mut container = elem("peripherals");
    let mut p = elem("peripheral");
    p.children.push(text_elem("name", "UART0"));
    p.children.push(text_elem("description", "serial port"));
    p.children.push(text_elem("baseAddress", "0x40001000"));
    p.children.push(text_elem("size", "32"));
    p.children.push(text_elem("access", "read-write"));
    p.children.push(text_elem("resetValue", "0x0"));
    container.children.push(p);
    root.children.push(container);

    let d = Device::parse(&root).unwrap();
    let p = &d.peripherals[0];
    assert_eq!(p.name.as_deref(), Some("UART0"));
    assert_eq!(p.description.as_deref(), Some("serial port"));
    assert_eq!(p.base_address, Some(0x4000_1000));
    assert_eq!(p.defaults.size, Some(32));
    assert_eq!(p.defaults.access.as_deref(), Some("read-write"));
    assert_eq!(p.defaults.reset_value, Some(0));
    assert_eq!(p.defaults.reset_mask, None);
}

#[test]
fn malformed_peripheral_default_is_reported() {
    let mut root = device_elem("1.1");
    root.children.push(text_elem("name", "BadDefault"));
    let mut container = elem("peripherals");
    let mut p = elem("peripheral");
    p.children.push(text_elem("size", "thirty-two"));
    container.children.push(p);
    root.children.push(container);
    match Device::parse(&root) {
        Err(SvdError::MalformedNumber(t)) => assert_eq!(t, "thirty-two"),
        other => panic!("expected a malformed-number error, got {:?}", other.map(|_| ())),
    }
}

#[test]
fn device_level_defaults_parse() {
    let mut root = device_elem("1.1");
    root.children.push(text_elem("name", "RootDefaults"));
    root.children.push(text_elem("size", "16"));
    root.children.push(text_elem("protection", "s"));
    root.children.push(text_elem("resetMask", "0xffff"));
    root.children.push(elem("peripherals"));
    let d = Device::parse(&root).unwrap();
    assert_eq!(d.defaults.size, Some(16));
    assert_eq!(d.defaults.protection.as_deref(), Some("s"));
    assert_eq!(d.defaults.reset_mask, Some(0xffff));
    assert_eq!(d.defaults.access, None);
}

#[test]
fn defaults_resolution_prefers_inner_values() {
    let mut root = device_elem("1.1");
    root.children.push(text_elem("name", "Inherit"));
    root.children.push(text_elem("size", "32"));
    root.children.push(text_elem("access", "read-only"));
    let mut container = elem("peripherals");
    let mut p = elem("peripheral");
    p.children.push(text_elem("size", "16"));
    container.children.push(p);
    root.children.push(container);

    let d = Device::parse(&root).unwrap();
    let effective = d.peripherals[0].defaults.resolve(&d.defaults);
    assert_eq!(effective.size, Some(16));
    assert_eq!(effective.access.as_deref(), Some("read-only"));
    assert_eq!(effective.protection, None);
}

#[test]
fn encoded_peripherals_keep_parse_order() {
    let mut root = device_elem("1.0");
    root.children.push(text_elem("name", "Ordered"));
    let mut container = elem("peripherals");
    for name in ["UART0", "SPI1", "GPIOA"] {
        let mut p = elem("peripheral");
        p.children.push(text_elem("name", name));
        container.children.push(p);
    }
    root.children.push(container);

    let d = Device::parse(&root).unwrap();
    let e = d.encode().unwrap();
    let encoded = child(&e, "peripherals").unwrap();
    assert_eq!(encoded.children.len(), 3);
    let names: Vec<&str> = encoded
        .children
        .iter()
        .map(|p| child(p, "name").unwrap().text.as_deref().unwrap())
        .collect();
    assert_eq!(names, ["UART0", "SPI1", "GPIOA"]);
}

#[test]
fn round_trip_preserves_tracked_fields() {
    let mut root = device_elem("1.3");
    root.children.push(text_elem("name", "Trip"));
    root.children.push(text_elem("version", "2.4"));
    root.children.push(text_elem("description", "round trip device"));
    root.children.push(text_elem("addressUnitBits", "0x8"));
    let mut cpu = elem("cpu");
    cpu.children.push(text_elem("name", "CM0"));
    root.children.push(cpu);
    let mut container = elem("peripherals");
    let mut p = elem("peripheral");
    p.children.push(text_elem("name", "TIMER0"));
    p.children.push(text_elem("baseAddress", "1073741824"));
    container.children.push(p);
    root.children.push(container);

    let d = Device::parse(&root).unwrap();
    let d2 = Device::parse(&d.encode().unwrap()).unwrap();
    assert_eq!(d2.name, d.name);
    assert_eq!(d2.schema_version(), d.schema_version());
    assert_eq!(d2.version, d.version);
    assert_eq!(d2.description, d.description);
    assert_eq!(d2.address_unit_bits, d.address_unit_bits);
    assert_eq!(d2.cpu.as_ref().unwrap().name, d.cpu.as_ref().unwrap().name);
    assert_eq!(d2.peripherals.len(), d.peripherals.len());
    assert_eq!(d2.peripherals[0].name, d.peripherals[0].name);
    assert_eq!(d2.peripherals[0].base_address, d.peripherals[0].base_address);
}

#[test]
fn width_is_programmatic_only() {
    let mut root = device_elem("1.1");
    root.children.push(text_elem("name", "Widthless"));
    root.children.push(text_elem("width", "32"));
    root.children.push(elem("peripherals"));
    let mut d = Device::parse(&root).unwrap();
    assert_eq!(d.width, None);

    d.width = Some(64);
    let e = d.encode().unwrap();
    let w = child(&e, "width").unwrap();
    assert_eq!(w.text.as_deref(), Some("64"));
}

#[test]
fn unrecognized_elements_are_ignored() {
    let mut root = device_elem("1.1");
    root.children.push(text_elem("vendor", "ACME Corp"));
    root.children.push(text_elem("name", "Tolerant"));
    root.children.push(elem("licenseText"));
    root.children.push(elem("peripherals"));
    let d = Device::parse(&root).unwrap();
    assert_eq!(d.name, "Tolerant");
}

#[test]
fn first_child_with_a_name_wins() {
    let mut root = device_elem("1.1");
    root.children.push(text_elem("name", "First"));
    root.children.push(text_elem("name", "Second"));
    root.children.push(elem("peripherals"));
    let d = Device::parse(&root).unwrap();
    assert_eq!(d.name, "First");
}

#[test]
fn root_defaults_are_not_reencoded() {
    let mut root = device_elem("1.1");
    root.children.push(text_elem("name", "RootOnly"));
    root.children.push(text_elem("size", "32"));
    root.children.push(text_elem("resetValue", "0"));
    root.children.push(elem("peripherals"));
    let d = Device::parse(&root).unwrap();
    assert_eq!(d.defaults.size, Some(32));
    let e = d.encode().unwrap();
    assert!(child(&e, "size").is_none());
    assert!(child(&e, "resetValue").is_none());
}

#[test]
fn peripheral_defaults_round_trip() {
    let mut root = device_elem("1.1");
    root.children.push(text_elem("name", "PerDefaults"));
    let mut container = elem("peripherals");
    let mut p = elem("peripheral");
    p.children.push(text_elem("name", "DMA1"));
    p.children.push(text_elem("size", "8"));
    p.children.push(text_elem("protection", "n"));
    p.children.push(text_elem("resetMask", "0xff"));
    container.children.push(p);
    root.children.push(container);

    let d = Device::parse(&root).unwrap();
    let d2 = Device::parse(&d.encode().unwrap()).unwrap();
    let q = &d2.peripherals[0];
    assert_eq!(q.defaults.size, Some(8));
    assert_eq!(q.defaults.protection.as_deref(), Some("n"));
    assert_eq!(q.defaults.reset_mask, Some(0xff));
    assert_eq!(q.defaults.access, None);
}

#[test]
fn error_description_names_the_field() {
    let mut root = device_elem("1.1");
    root.children.push(elem("peripherals"));
    let err = match Device::parse(&root) {
        Err(e) => e,
        Ok(_) => panic!("expected a failure"),
    };
    assert_eq!(err.describe(), "missing required element: name");
}
