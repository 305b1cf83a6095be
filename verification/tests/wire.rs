use keri::error::Error;
use keri::event::event_data::delegated::DelegatedInceptionEvent;
use keri::event::event_data::delegated::DelegatedRotationEvent;
use keri::event::event_data::inception::InceptionEvent;
use keri::event::event_data::interaction::InteractionEvent;
use keri::event::event_data::rotation::RotationEvent;
use keri::event::event_data::EventData;
use keri::event::sections::seal::DelegatedEventSeal;
use keri::event::sections::seal::DelegatingEventSeal;
use keri::event::sections::seal::DelegatingLocationSeal;
use keri::event::sections::seal::DigestSeal;
use keri::event::sections::seal::EventSeal;
use keri::event::sections::seal::LocationSeal;
use keri::event::sections::seal::RootSeal;
use keri::event::sections::seal::Seal;
use keri::event::sections::InceptionWitnessConfig;
use keri::event::sections::KeyConfig;
use keri::event::sections::WitnessConfig;
use keri::event::Event;
use keri::event_message::are_messages_encodable;
use keri::event_message::parse_signed_message_json;
use keri::event_message::signed::are_signatures_encodable;
use keri::event_message::serialize_signed_message_json;
use keri::event_message::write_version;
use keri::event_message::EventMessage;
use keri::prefix::AttachedSignaturePrefix;
use keri::prefix::BasicPrefix;
use keri::prefix::IdentifierPrefix;
use keri::prefix::SelfAddressingPrefix;
use keri::prefix::SelfSigningPrefix;
use keri::util::dfs_serializer;
use keri::util::document::Document;
use keri::util::document::Entry;
use keri::util::document::Field;
use keri::util::document::Record;
use keri::util::document::Value;
use keri::util::json;
use keri::util::json_parser;
use keri::util::lines::split_lines;
use serde::ser::SerializeMap;

fn key() -> String {
    format!("D{}=", "A".repeat(43))
}

fn inception() -> Event {
    Event {
        prefix: IdentifierPrefix::Basic(BasicPrefix::Ed25519(vec![0; 32])),
        sn: 0,
        event_data: EventData::Icp(InceptionEvent {
            key_config: KeyConfig {
                threshold: 1,
                public_keys: vec![BasicPrefix::Ed25519(vec![0; 32])],
                threshold_key_digest: SelfAddressingPrefix::default(),
            },
            witness_config: InceptionWitnessConfig::default(),
            inception_configuration: vec![],
        }),
    }
}

fn rotation() -> RotationEvent {
    RotationEvent {
        previous_event_hash: SelfAddressingPrefix::SHA3_256(vec![1; 32]),
        key_config: KeyConfig {
            threshold: 2,
            public_keys: vec![
                BasicPrefix::Ed25519(vec![2; 32]),
                BasicPrefix::ECDSAsecp256k1(vec![3; 33]),
            ],
            threshold_key_digest: SelfAddressingPrefix::SHA3_512(vec![4; 64]),
        },
        witness_config: WitnessConfig {
            tally: 17,
            prune: vec![IdentifierPrefix::Basic(BasicPrefix::Ed25519NT(vec![5; 32]))],
            graft: vec![
                IdentifierPrefix::Basic(BasicPrefix::Ed25519NT(vec![6; 32])),
                IdentifierPrefix::SelfAddressing(SelfAddressingPrefix::Blake3_256(vec![7; 32])),
            ],
        },
        data: vec![
            Seal::Digest(DigestSeal {
                dig: SelfAddressingPrefix::SHA2_256(vec![8; 32]),
            }),
            Seal::Root(RootSeal {
                tree_root: SelfAddressingPrefix::SHA2_512(vec![9; 64]),
            }),
            Seal::Event(EventSeal {
                prefix: IdentifierPrefix::SelfSigning(SelfSigningPrefix::Ed25519Sha512(vec![10; 64])),
                event_digest: SelfAddressingPrefix::Blake2B512(vec![11; 64]),
            }),
            Seal::Location(LocationSeal {
                prefix: IdentifierPrefix::Basic(BasicPrefix::X448(vec![12; 56])),
                sn: 0xabcdef,
                ilk: "a \"quoted\" \\ kind\n\twith \u{1} and \u{e9}\u{4e16}".to_string(),
                prior_digest: SelfAddressingPrefix::Blake2S256(vec![13; 32]),
            }),
        ],
    }
}

fn seal() -> DelegatingEventSeal {
    DelegatingEventSeal {
        prefix: IdentifierPrefix::Basic(BasicPrefix::Ed25519(vec![14; 32])),
        commitment: SelfAddressingPrefix::SHA3_512(vec![15; 64]),
    }
}

fn signatures() -> Vec<AttachedSignaturePrefix> {
    vec![
        AttachedSignaturePrefix {
            index: 0,
            sig: SelfSigningPrefix::Ed25519Sha512(vec![16; 64]),
        },
        AttachedSignaturePrefix {
            index: 4000,
            sig: SelfSigningPrefix::ECDSAsecp256k1Sha256(vec![17; 64]),
        },
        AttachedSignaturePrefix {
            index: 2,
            sig: SelfSigningPrefix::Ed448(vec![18; 114]),
        },
    ]
}

fn reads_back(event: Event, signatures: Vec<AttachedSignaturePrefix>) {
    let message = event.sign(signatures).unwrap();
    let text = serialize_signed_message_json(&message).unwrap();
    let read = parse_signed_message_json(&text).unwrap();
    assert_eq!(format!("{:?}", read), format!("{:?}", message));
    assert_eq!(serialize_signed_message_json(&read).unwrap(), text);
}

#[test]
fn version_string_states_the_size() {
    assert_eq!(write_version(0), "KERI10JSON000000_");
    assert_eq!(write_version(211), "KERI10JSON0000d3_");
    assert_eq!(write_version(0x100_0000), "KERI10JSON1000000_");
}

#[test]
fn inception_as_json() {
    let message = inception().sign(vec![]).unwrap();
    let expected = format!(
        "{{\"vs\":\"KERI10JSON0000d3_\",\"pre\":\"{k}\",\"sn\":\"0\",\"ilk\":\"icp\",\"sith\":\"1\",\"keys\":[\"{k}\"],\"nxt\":\"0E\",\"toad\":\"0\",\"wits\":[],\"cnfg\":[]}}",
        k = key()
    );
    assert_eq!(json::to_string(&message.to_document()), expected);
    assert_eq!(expected.len(), 211);
    assert_eq!(EventMessage::get_size(&inception()).unwrap(), 211);
    assert_eq!(inception().get_serialized_size().unwrap(), 211);
    assert_eq!(message.version, "KERI10JSON0000d3_");
}

#[test]
fn payload_is_the_values_in_order() {
    let message = inception().sign(vec![]).unwrap();
    let expected = format!("KERI10JSON0000d3_{k}0icp1{k}0E0", k = key());
    assert_eq!(dfs_serializer::to_string(&message).unwrap(), expected);
    assert_eq!(message.extract_serialized_data_set().unwrap(), expected);
}

#[test]
fn payload_leaves_the_signatures_out() {
    let unsigned = inception().sign(vec![]).unwrap();
    let signed = inception().sign(signatures()).unwrap();
    assert_eq!(
        signed.extract_serialized_data_set().unwrap(),
        unsigned.extract_serialized_data_set().unwrap()
    );
    assert_eq!(signed.version, unsigned.version);
    assert_eq!(signed.digest(), unsigned.digest());
}

#[test]
fn equal_events_have_the_same_payload() {
    let first = rotation();
    let mut graft = Vec::new();
    graft.push(IdentifierPrefix::Basic(BasicPrefix::Ed25519NT(vec![6; 32])));
    graft.push(IdentifierPrefix::SelfAddressing(SelfAddressingPrefix::Blake3_256(vec![7; 32])));
    let second = RotationEvent {
        data: first.data.clone(),
        witness_config: WitnessConfig {
            graft,
            prune: first.witness_config.prune.clone(),
            tally: 17,
        },
        key_config: first.key_config.clone(),
        previous_event_hash: first.previous_event_hash.clone(),
    };
    let prefix = IdentifierPrefix::Basic(BasicPrefix::Ed25519(vec![0; 32]));
    let first = Event { prefix: prefix.clone(), sn: 1, event_data: EventData::Rot(first) };
    let second = Event { event_data: EventData::Rot(second), sn: 1, prefix };
    assert_eq!(
        first.sign(vec![]).unwrap().extract_serialized_data_set().unwrap(),
        second.sign(signatures()).unwrap().extract_serialized_data_set().unwrap()
    );
}

#[test]
fn signed_inception_as_text() {
    let signature = AttachedSignaturePrefix {
        index: 0,
        sig: SelfSigningPrefix::Ed25519Sha512(vec![0; 64]),
    };
    let message = inception().sign(vec![signature]).unwrap();
    let expected = format!(
        "{{\"vs\":\"KERI10JSON0000d3_\",\"pre\":\"{k}\",\"sn\":\"0\",\"ilk\":\"icp\",\"sith\":\"1\",\"keys\":[\"{k}\"],\"nxt\":\"0E\",\"toad\":\"0\",\"wits\":[],\"cnfg\":[]}}\n-AAAB\nAAAA{s}==",
        k = key(),
        s = "A".repeat(86)
    );
    assert_eq!(serialize_signed_message_json(&message).unwrap(), expected);
}

#[test]
fn unsigned_message_ends_in_an_empty_line() {
    let message = inception().sign(vec![]).unwrap();
    let text = serialize_signed_message_json(&message).unwrap();
    assert!(text.ends_with("}\n-AAAA\n"));
    let read = parse_signed_message_json(&text).unwrap();
    assert_eq!(read.signatures.len(), 0);
    assert_eq!(format!("{:?}", read), format!("{:?}", message));
}

#[test]
fn signed_inception_reads_back() {
    reads_back(inception(), signatures());
}

#[test]
fn signed_rotation_reads_back() {
    let event = Event {
        prefix: IdentifierPrefix::Basic(BasicPrefix::Ed25519(vec![0; 32])),
        sn: 0x1f,
        event_data: EventData::Rot(rotation()),
    };
    reads_back(event, signatures());
}

#[test]
fn signed_interaction_reads_back() {
    let event = Event {
        prefix: IdentifierPrefix::SelfAddressing(SelfAddressingPrefix::SHA3_256(vec![3; 32])),
        sn: u64::MAX,
        event_data: EventData::Ixn(InteractionEvent {
            previous_event_hash: SelfAddressingPrefix::SHA3_512(vec![1; 64]),
            data: rotation().data,
        }),
    };
    reads_back(event, vec![signatures().remove(1)]);
    let event = Event {
        prefix: IdentifierPrefix::SelfAddressing(SelfAddressingPrefix::SHA3_256(vec![3; 32])),
        sn: 2,
        event_data: EventData::Ixn(InteractionEvent {
            previous_event_hash: SelfAddressingPrefix::SHA3_512(vec![1; 64]),
            data: vec![],
        }),
    };
    reads_back(event, vec![]);
}

#[test]
fn signed_delegated_events_read_back() {
    let icp = match inception().event_data {
        EventData::Icp(icp) => icp,
        _ => unreachable!(),
    };
    let mut configured = icp.clone();
    configured.inception_configuration = vec!["EO".to_string(), "a,b\"]".to_string()];
    configured.witness_config = InceptionWitnessConfig {
        tally: 2,
        initial_witnesses: vec![
            IdentifierPrefix::Basic(BasicPrefix::Ed25519NT(vec![1; 32])),
            IdentifierPrefix::Basic(BasicPrefix::Ed25519NT(vec![2; 32])),
        ],
    };
    let event = Event {
        prefix: IdentifierPrefix::Basic(BasicPrefix::Ed25519(vec![0; 32])),
        sn: 0,
        event_data: EventData::Dip(DelegatedInceptionEvent {
            inception_data: configured,
            seal: seal(),
        }),
    };
    reads_back(event, signatures());
    let event = Event {
        prefix: IdentifierPrefix::Basic(BasicPrefix::Ed25519(vec![0; 32])),
        sn: 9,
        event_data: EventData::Drt(DelegatedRotationEvent {
            rotation_data: rotation(),
            seal: seal(),
        }),
    };
    reads_back(event, signatures());
}

#[test]
fn seals_as_records() {
    let seal = Seal::Event(EventSeal {
        prefix: IdentifierPrefix::Basic(BasicPrefix::Ed25519(vec![0; 32])),
        event_digest: SelfAddressingPrefix::default(),
    });
    let mut text = String::new();
    json::write_record(&mut text, &seal.to_record());
    assert_eq!(
        text,
        format!("{{\"seal\":\"event\",\"pre\":\"{}\",\"dig\":\"0E\"}}", key())
    );
    let seal = Seal::Location(LocationSeal {
        prefix: IdentifierPrefix::Basic(BasicPrefix::Ed25519(vec![0; 32])),
        sn: 255,
        ilk: "rot".to_string(),
        prior_digest: SelfAddressingPrefix::default(),
    });
    let mut text = String::new();
    json::write_record(&mut text, &seal.to_record());
    assert_eq!(
        text,
        format!(
            "{{\"seal\":\"location\",\"pre\":\"{}\",\"sn\":\"ff\",\"ilk\":\"rot\",\"dig\":\"0E\"}}",
            key()
        )
    );
    assert_eq!(Seal::from_record(&seal.to_record()).unwrap(), seal);
}

#[test]
fn delegation_seals_as_records() {
    let delegating = seal();
    let mut text = String::new();
    json::write_record(&mut text, &delegating.to_record());
    assert_eq!(
        text,
        format!(
            "{{\"pre\":\"D{}=\",\"dig\":\"0E{}==\"}}",
            "Dg4O".repeat(10) + "Dg4",
            "Dw8P".repeat(21) + "Dw"
        )
    );
    let read = DelegatingEventSeal::from_record(&delegating.to_record()).unwrap();
    assert_eq!(format!("{:?}", read), format!("{:?}", delegating));
    let mut short = delegating.to_record();
    short.entries.pop();
    assert!(matches!(
        DelegatingEventSeal::from_record(&short),
        Err(Error::DeserializationError)
    ));
}

#[test]
fn delegation_seals_hold_what_they_are_given() {
    let delegated = DelegatedEventSeal {
        prefix: IdentifierPrefix::Basic(BasicPrefix::Ed25519(vec![0; 32])),
        sn: 16,
        event_digest: SelfAddressingPrefix::default(),
    };
    let copy = delegated.clone();
    assert_eq!(copy.prefix, delegated.prefix);
    assert_eq!(copy.sn, 16);
    assert_eq!(copy.event_digest, SelfAddressingPrefix::default());
    let location = DelegatingLocationSeal {
        prefix: IdentifierPrefix::Basic(BasicPrefix::Ed25519(vec![0; 32])),
        sn: 1,
        ilk: "ixn".to_string(),
        prior_digest: SelfAddressingPrefix::default(),
    };
    let copy = location.clone();
    assert_eq!(copy.prefix, location.prefix);
    assert_eq!(copy.sn, 1);
    assert_eq!(copy.ilk, "ixn");
    assert_eq!(copy.prior_digest, location.prior_digest);
}

#[test]
fn quoted_text_escapes_what_json_asks_for() {
    let mut text = String::new();
    json::write_quoted(&mut text, "a\"b\\c\n\r\t\u{8}\u{c}\u{1}\u{1f} \u{e9}");
    assert_eq!(text, "\"a\\\"b\\\\c\\n\\r\\t\\b\\f\\u0001\\u001f \u{e9}\"");
}

#[test]
fn document_reads_back_from_json() {
    let document = Document {
        fields: vec![
            Field::new("text", Value::Text("a\"b\\c\n\u{2}".to_string())),
            Field::new("none", Value::List(vec![])),
            Field::new("list", Value::List(vec!["x".to_string(), "".to_string()])),
            Field::new("record", Value::Record(Record { entries: vec![] })),
            Field::new(
                "records",
                Value::Records(vec![
                    Record { entries: vec![Entry::new("a", "1".to_string())] },
                    Record {
                        entries: vec![
                            Entry::new("b", "2".to_string()),
                            Entry::new("c", "3".to_string()),
                        ],
                    },
                ]),
            ),
        ],
    };
    let text = json::to_string(&document);
    assert_eq!(
        text,
        "{\"text\":\"a\\\"b\\\\c\\n\\u0002\",\"none\":[],\"list\":[\"x\",\"\"],\"record\":{},\"records\":[{\"a\":\"1\"},{\"b\":\"2\",\"c\":\"3\"}]}"
    );
    let read = json_parser::from_str(&text).unwrap();
    assert_eq!(format!("{:?}", read), format!("{:?}", document));
    let empty = json_parser::from_str("{}").unwrap();
    assert_eq!(empty.fields.len(), 0);
}

#[test]
fn json_that_is_no_document_is_refused() {
    for text in [
        "",
        "{",
        "{}x",
        "{\"a\":1}",
        "{\"a\":\"b\",}",
        "{\"a\":[\"b\",]}",
        "{\"a\":\"\\x\"}",
        "{\"a\":\"\\u0041\"}",
        "{\"a\":\"\n\"}",
        "{\"a\":[[]]}",
        "{\"a\":{\"b\":[]}}",
        "{\"a\" \"b\"}",
        "[]",
    ] {
        assert!(
            matches!(json_parser::from_str(text), Err(Error::DeserializationError)),
            "{}",
            text
        );
    }
}

#[test]
fn json_is_read_with_white_space_between_its_tokens() {
    let spaced = " {\t\"text\" : \"a b\" ,\r\n \"none\" : [ ] , \"list\":[ \"x\" , \"\" ] ,\n\"record\" : { } , \"records\" : [ { \"a\" : \"1\" } , {\"b\":\"2\" , \"c\":\"3\"} ] } \n";
    let tight = "{\"text\":\"a b\",\"none\":[],\"list\":[\"x\",\"\"],\"record\":{},\"records\":[{\"a\":\"1\"},{\"b\":\"2\",\"c\":\"3\"}]}";
    let read = json_parser::from_str(spaced).unwrap();
    assert_eq!(json::to_string(&read), tight);
    assert_eq!(
        format!("{:?}", read),
        format!("{:?}", json_parser::from_str(tight).unwrap())
    );
    assert_eq!(json_parser::from_str(" { } ").unwrap().fields.len(), 0);
    assert_eq!(json_parser::skip(&vec![' ', '\t', 'x', ' '], 0), 2);
    assert_eq!(json_parser::skip(&vec![' ', '\t', 'x', ' '], 2), 2);
    assert_eq!(json_parser::skip(&vec![' ', '\t', 'x', ' '], 3), 4);
}

#[test]
fn signed_message_is_read_in_any_order_of_its_members() {
    let event = Event {
        prefix: IdentifierPrefix::Basic(BasicPrefix::Ed25519(vec![0; 32])),
        sn: 0x1f,
        event_data: EventData::Drt(DelegatedRotationEvent {
            rotation_data: rotation(),
            seal: seal(),
        }),
    };
    let message = event.sign(signatures()).unwrap();
    let text = serialize_signed_message_json(&message).unwrap();
    let lines: Vec<&str> = text.split('\n').collect();
    let value: serde_json::Value = serde_json::from_str(lines[0]).unwrap();
    // another writer: members sorted by name, indented, one more member
    let mut sorted = value.clone();
    sorted["zz"] = serde_json::Value::String("more".to_string());
    let other = serde_json::to_string_pretty(&sorted).unwrap().replace('\n', "\r ");
    assert_ne!(other, lines[0]);
    assert!(other.find("\"adds\"").unwrap() < other.find("\"vs\"").unwrap());
    let mut spaced = vec![other.as_str()];
    spaced.extend_from_slice(&lines[1..]);
    let read = parse_signed_message_json(&spaced.join("\n")).unwrap();
    assert_eq!(format!("{:?}", read), format!("{:?}", message));
    // the first member of a name decides
    let twice = lines[0].replacen("{", "{\"sn\":\"1f\",", 1).replace("}\n", "}");
    let twice = format!("{},\"sn\":\"20\"}}", &twice[..twice.len() - 1]);
    let mut doubled = vec![twice.as_str()];
    doubled.extend_from_slice(&lines[1..]);
    let read = parse_signed_message_json(&doubled.join("\n")).unwrap();
    assert_eq!(read.event.sn, 0x1f);
    // a member that is missing
    let mut less = value.clone();
    less.as_object_mut().unwrap().remove("toad");
    let less = serde_json::to_string(&less).unwrap();
    let mut missing = vec![less.as_str()];
    missing.extend_from_slice(&lines[1..]);
    assert!(matches!(
        parse_signed_message_json(&missing.join("\n")),
        Err(Error::DeserializationError)
    ));
}

#[test]
fn seal_is_read_in_any_order_of_its_entries() {
    let seal = Seal::Location(LocationSeal {
        prefix: IdentifierPrefix::Basic(BasicPrefix::Ed25519(vec![0; 32])),
        sn: 255,
        ilk: "rot".to_string(),
        prior_digest: SelfAddressingPrefix::default(),
    });
    let mut record = seal.to_record();
    record.entries.reverse();
    record.entries.push(Entry::new("more", "x".to_string()));
    assert_eq!(Seal::from_record(&record).unwrap(), seal);
    record.entries.remove(0);
    assert!(matches!(Seal::from_record(&record), Err(Error::DeserializationError)));
    let untagged = Record { entries: vec![Entry::new("dig", "0E".to_string())] };
    assert!(matches!(Seal::from_record(&untagged), Err(Error::DeserializationError)));
}

struct Wire<'a>(&'a EventMessage);

struct WireSeal<'a>(&'a Seal);

struct WireDelegating<'a>(&'a DelegatingEventSeal);

fn texts(prefixes: &[IdentifierPrefix]) -> Vec<String> {
    prefixes.iter().map(|p| p.to_str()).collect()
}

impl<'a> serde::Serialize for WireSeal<'a> {
    fn serialize<S: serde::Serializer>(&self, serializer: S) -> Result<S::Ok, S::Error> {
        let mut map = serializer.serialize_map(None)?;
        match self.0 {
            Seal::Digest(seal) => {
                map.serialize_entry("seal", "digest")?;
                map.serialize_entry("dig", &seal.dig.to_str())?;
            }
            Seal::Root(seal) => {
                map.serialize_entry("seal", "root")?;
                map.serialize_entry("root", &seal.tree_root.to_str())?;
            }
            Seal::Event(seal) => {
                map.serialize_entry("seal", "event")?;
                map.serialize_entry("pre", &seal.prefix.to_str())?;
                map.serialize_entry("dig", &seal.event_digest.to_str())?;
            }
            Seal::Location(seal) => {
                map.serialize_entry("seal", "location")?;
                map.serialize_entry("pre", &seal.prefix.to_str())?;
                map.serialize_entry("sn", &format!("{:x}", seal.sn))?;
                map.serialize_entry("ilk", &seal.ilk)?;
                map.serialize_entry("dig", &seal.prior_digest.to_str())?;
            }
        }
        map.end()
    }
}

impl<'a> serde::Serialize for WireDelegating<'a> {
    fn serialize<S: serde::Serializer>(&self, serializer: S) -> Result<S::Ok, S::Error> {
        let mut map = serializer.serialize_map(None)?;
        map.serialize_entry("pre", &self.0.prefix.to_str())?;
        map.serialize_entry("dig", &self.0.commitment.to_str())?;
        map.end()
    }
}

fn key_config_entries<M: serde::ser::SerializeMap>(map: &mut M, config: &KeyConfig) -> Result<(), M::Error> {
    map.serialize_entry("sith", &format!("{:x}", config.threshold))?;
    let keys: Vec<String> = config.public_keys.iter().map(|k| k.to_str()).collect();
    map.serialize_entry("keys", &keys)?;
    map.serialize_entry("nxt", &config.threshold_key_digest.to_str())
}

fn inception_entries<M: serde::ser::SerializeMap>(map: &mut M, event: &InceptionEvent) -> Result<(), M::Error> {
    key_config_entries(map, &event.key_config)?;
    map.serialize_entry("toad", &format!("{:x}", event.witness_config.tally))?;
    map.serialize_entry("wits", &texts(&event.witness_config.initial_witnesses))?;
    map.serialize_entry("cnfg", &event.inception_configuration)
}

fn rotation_entries<M: serde::ser::SerializeMap>(map: &mut M, event: &RotationEvent) -> Result<(), M::Error> {
    map.serialize_entry("dig", &event.previous_event_hash.to_str())?;
    key_config_entries(map, &event.key_config)?;
    map.serialize_entry("toad", &format!("{:x}", event.witness_config.tally))?;
    map.serialize_entry("cuts", &texts(&event.witness_config.prune))?;
    map.serialize_entry("adds", &texts(&event.witness_config.graft))?;
    let data: Vec<WireSeal> = event.data.iter().map(WireSeal).collect();
    map.serialize_entry("data", &data)
}

impl<'a> serde::Serialize for Wire<'a> {
    fn serialize<S: serde::Serializer>(&self, serializer: S) -> Result<S::Ok, S::Error> {
        let mut map = serializer.serialize_map(None)?;
        map.serialize_entry("vs", &self.0.version)?;
        map.serialize_entry("pre", &self.0.event.prefix.to_str())?;
        map.serialize_entry("sn", &format!("{:x}", self.0.event.sn))?;
        match &self.0.event.event_data {
            EventData::Icp(event) => {
                map.serialize_entry("ilk", "icp")?;
                inception_entries(&mut map, event)?;
            }
            EventData::Rot(event) => {
                map.serialize_entry("ilk", "rot")?;
                rotation_entries(&mut map, event)?;
            }
            EventData::Ixn(event) => {
                map.serialize_entry("ilk", "ixn")?;
                map.serialize_entry("dig", &event.previous_event_hash.to_str())?;
                let data: Vec<WireSeal> = event.data.iter().map(WireSeal).collect();
                map.serialize_entry("data", &data)?;
            }
            EventData::Dip(event) => {
                map.serialize_entry("ilk", "dip")?;
                inception_entries(&mut map, &event.inception_data)?;
                map.serialize_entry("seal", &WireDelegating(&event.seal))?;
            }
            EventData::Drt(event) => {
                map.serialize_entry("ilk", "drt")?;
                rotation_entries(&mut map, &event.rotation_data)?;
                map.serialize_entry("seal", &WireDelegating(&event.seal))?;
            }
        }
        map.end()
    }
}

fn samples() -> Vec<Event> {
    let prefix = IdentifierPrefix::Basic(BasicPrefix::Ed25519(vec![0; 32]));
    let icp = match inception().event_data {
        EventData::Icp(icp) => icp,
        _ => unreachable!(),
    };
    let mut configured = icp.clone();
    configured.inception_configuration =
        vec!["EO".to_string(), "a,b\"]\\ \u{7f}\u{0}\u{1f}\u{e9}\u{10348}".to_string()];
    configured.witness_config.initial_witnesses = vec![prefix.clone(), prefix.clone()];
    vec![
        inception(),
        Event { prefix: prefix.clone(), sn: 0, event_data: EventData::Icp(configured.clone()) },
        Event { prefix: prefix.clone(), sn: 0x1f, event_data: EventData::Rot(rotation()) },
        Event {
            prefix: prefix.clone(),
            sn: u64::MAX,
            event_data: EventData::Ixn(InteractionEvent {
                previous_event_hash: SelfAddressingPrefix::SHA3_512(vec![1; 64]),
                data: rotation().data,
            }),
        },
        Event {
            prefix: prefix.clone(),
            sn: 2,
            event_data: EventData::Ixn(InteractionEvent {
                previous_event_hash: SelfAddressingPrefix::default(),
                data: vec![],
            }),
        },
        Event {
            prefix: prefix.clone(),
            sn: 0,
            event_data: EventData::Dip(DelegatedInceptionEvent {
                inception_data: configured,
                seal: seal(),
            }),
        },
        Event {
            prefix,
            sn: 9,
            event_data: EventData::Drt(DelegatedRotationEvent {
                rotation_data: rotation(),
                seal: seal(),
            }),
        },
    ]
}

#[test]
fn json_and_size_are_those_of_serde_json() {
    for event in samples() {
        let message = event.sign(vec![]).unwrap();
        let written = json::to_string(&message.to_document());
        let expected = serde_json::to_string(&Wire(&message)).unwrap();
        assert_eq!(written, expected);
        assert_eq!(EventMessage::get_size(&event).unwrap(), expected.len());
        assert_eq!(message.version, format!("KERI10JSON{:06x}_", expected.len()));
        let signed = serialize_signed_message_json(&message).unwrap();
        assert_eq!(signed, format!("{}\n-AAAA\n", expected));
    }
}

#[test]
fn lines_are_what_stands_between_line_feeds() {
    let chars: Vec<char> = "a\nbc\n\nd\n".chars().collect();
    assert_eq!(split_lines(&chars), vec!["a", "bc", "", "d", ""]);
    let chars: Vec<char> = Vec::new();
    assert_eq!(split_lines(&chars), vec![""]);
}

#[test]
fn signed_message_without_its_lines_is_malformed() {
    let message = inception().sign(vec![]).unwrap();
    let body = json::to_string(&message.to_document());
    assert!(matches!(
        parse_signed_message_json(&body),
        Err(Error::DeserializationError)
    ));
    assert!(matches!(
        parse_signed_message_json(&format!("{}\n-AAAA", body)),
        Err(Error::DeserializationError)
    ));
    assert!(matches!(
        parse_signed_message_json(&format!("{}\n-AAAA\nAAAA", body)),
        Err(Error::DeserializationError)
    ));
    assert!(matches!(
        parse_signed_message_json(&format!("{}\n-AAAC\nAAAA", body)),
        Err(Error::DeserializationError)
    ));
    assert!(matches!(
        parse_signed_message_json(&format!("{}\n-AAAB\nAAAA\nAAAB", body)),
        Err(Error::DeserializationError)
    ));
    assert!(matches!(
        parse_signed_message_json("not json\n-AAAA\n"),
        Err(Error::DeserializationError)
    ));
}

#[test]
fn signed_message_with_a_malformed_value_is_refused_with_its_error() {
    let message = inception().sign(vec![]).unwrap();
    let body = json::to_string(&message.to_document());
    assert!(matches!(
        parse_signed_message_json(&format!("{}\n-A*AA\n", body)),
        Err(Error::IntegerParseValue)
    ));
    assert!(matches!(
        parse_signed_message_json(&format!("{}\n-AAAB\nAAAA*", body)),
        Err(Error::Base64DecodingError { .. })
    ));
    assert!(matches!(
        parse_signed_message_json(&format!("{}\n-AAAB\nXAAA", body)),
        Err(Error::ImproperPrefixType)
    ));
    let bad_number = body.replace("\"sn\":\"0\"", "\"sn\":\"zero\"");
    assert!(matches!(
        parse_signed_message_json(&format!("{}\n-AAAA\n", bad_number)),
        Err(Error::IntegerParseValue)
    ));
    let bad_prefix = body.replace("\"nxt\":\"0E\"", "\"nxt\":\"D\"");
    assert!(matches!(
        parse_signed_message_json(&format!("{}\n-AAAA\n", bad_prefix)),
        Err(Error::ImproperPrefixType)
    ));
    let bad_kind = body.replace("\"ilk\":\"icp\"", "\"ilk\":\"xyz\"");
    assert!(matches!(
        parse_signed_message_json(&format!("{}\n-AAAA\n", bad_kind)),
        Err(Error::DeserializationError)
    ));
    let other_kind = body.replace("\"ilk\":\"icp\"", "\"ilk\":\"ixn\"");
    assert!(matches!(
        parse_signed_message_json(&format!("{}\n-AAAA\n", other_kind)),
        Err(Error::DeserializationError)
    ));
    let misnamed = body.replace("\"toad\"", "\"tally\"");
    assert!(matches!(
        parse_signed_message_json(&format!("{}\n-AAAA\n", misnamed)),
        Err(Error::DeserializationError)
    ));
}

#[test]
fn more_signatures_than_the_marker_can_announce_are_an_error() {
    let signature = AttachedSignaturePrefix {
        index: 0,
        sig: SelfSigningPrefix::Ed25519Sha512(vec![]),
    };
    let most = inception().sign(vec![signature.clone(); 65535]).unwrap();
    let text = serialize_signed_message_json(&most).unwrap();
    assert_eq!(parse_signed_message_json(&text).unwrap().signatures.len(), 65535);
    let more = inception().sign(vec![signature; 65536]).unwrap();
    match serialize_signed_message_json(&more) {
        Err(Error::SerializationError(message)) => {
            assert_eq!(message, "More signatures than the count can state")
        }
        _ => panic!("no serialization error"),
    }
}

#[test]
fn values_say_whether_they_can_be_written() {
    let message = inception().sign(signatures()).unwrap();
    assert!(message.is_encodable());
    assert!(message.event.is_encodable());
    assert!(are_signatures_encodable(&message.signatures));
    assert!(are_messages_encodable(&[message.clone(), message]));
    assert!(rotation().is_encodable());
    assert!(seal().is_encodable());
    assert!(keri::util::base64::fits(&[0; 100]));
    let read = parse_signed_message_json(
        &serialize_signed_message_json(&inception().sign(signatures()).unwrap()).unwrap(),
    )
    .unwrap();
    assert!(read.is_encodable() && are_signatures_encodable(&read.signatures));
}

#[test]
fn version_string_of_a_new_message_states_its_size() {
    let message = inception().sign(signatures()).unwrap();
    assert!(message.is_well_formed());
    let mut other = message.clone();
    other.version = "KERI10JSON0000d4_".to_string();
    assert!(!other.is_well_formed());
    let read = parse_signed_message_json(&serialize_signed_message_json(&message).unwrap());
    assert!(read.unwrap().is_well_formed());
}

#[test]
fn json_of_a_message_is_read_by_other_readers() {
    let event = Event {
        prefix: IdentifierPrefix::Basic(BasicPrefix::Ed25519(vec![0; 32])),
        sn: 0x1f,
        event_data: EventData::Rot(rotation()),
    };
    let message = event.sign(signatures()).unwrap();
    let text = json::to_string(&message.to_document());
    let value: serde_json::Value = serde_json::from_str(&text).unwrap();
    assert_eq!(value["vs"].as_str(), Some(message.version.as_str()));
    assert_eq!(value["pre"].as_str(), Some(key().as_str()));
    assert_eq!(value["sn"].as_str(), Some("1f"));
    assert_eq!(value["ilk"].as_str(), Some("rot"));
    assert_eq!(value["sith"].as_str(), Some("2"));
    assert_eq!(value["keys"].as_array().unwrap().len(), 2);
    assert_eq!(value["toad"].as_str(), Some("11"));
    assert_eq!(value["cuts"].as_array().unwrap().len(), 1);
    assert_eq!(value["adds"].as_array().unwrap().len(), 2);
    let data = value["data"].as_array().unwrap();
    assert_eq!(data.len(), 4);
    assert_eq!(data[0]["seal"].as_str(), Some("digest"));
    assert_eq!(data[1]["seal"].as_str(), Some("root"));
    assert_eq!(data[2]["seal"].as_str(), Some("event"));
    assert_eq!(data[3]["seal"].as_str(), Some("location"));
    assert_eq!(data[3]["sn"].as_str(), Some("abcdef"));
    assert_eq!(
        data[3]["ilk"].as_str(),
        Some("a \"quoted\" \\ kind\n\twith \u{1} and \u{e9}\u{4e16}")
    );
    let mut quoted = String::new();
    json::write_quoted(&mut quoted, data[3]["ilk"].as_str().unwrap());
    assert_eq!(serde_json::to_string(&data[3]["ilk"]).unwrap(), quoted);
    assert_eq!(text.len(), EventMessage::get_size(&event).unwrap());
}
