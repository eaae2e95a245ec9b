use rspaces::message::connection_step;
use rspaces::message::ConnectionEvent;
use rspaces::message::ConnectionStep;
use rspaces::codec::decode_field;
use rspaces::codec::decode_message;
use rspaces::codec::decode_template;
use rspaces::codec::decode_tuple;
use rspaces::codec::encode_field_into;
use rspaces::codec::encode_frame;
use rspaces::codec::encode_message;
use rspaces::codec::encode_template;
use rspaces::codec::encode_tuple;
use rspaces::codec::frame_length;
use rspaces::codec::FRAME_HEADER;
use rspaces::drain_filter;
use rspaces::message::bare;
use rspaces::message::dispatch;
use rspaces::message::put_request;
use rspaces::message::request;
use rspaces::remote::bulk_result;
use rspaces::remote::handshake_accepted;
use rspaces::remote::handshake_reply;
use rspaces::remote::parse_address;
use rspaces::remote::put_result;
use rspaces::remote::single_result;
use rspaces::Dispatch;
use rspaces::FieldType;
use rspaces::LocalSpace;
use rspaces::MessageType;
use rspaces::Repository;
use rspaces::SpaceError;
use rspaces::SpaceType;
use rspaces::Template;
use rspaces::TemplateType;
use rspaces::Tuple;
use rspaces::TupleField;

fn pair<A: FieldType, B: FieldType>(a: A, b: B) -> Tuple {
    Tuple::new(vec![a.into_field(), b.into_field()])
}

fn q2(a: (TupleField, TemplateType), b: (TupleField, TemplateType)) -> Template {
    Template::new_fields(vec![a, b])
}

fn first_i32(t: &Tuple) -> i32 {
    t.get_field(0).as_i32().unwrap()
}

fn all_spaces() -> Vec<LocalSpace> {
    vec![
        LocalSpace::new_sequential(),
        LocalSpace::new_queue(),
        LocalSpace::new_stack(),
        LocalSpace::new_pile(),
        LocalSpace::new_random(),
    ]
}

fn encode_one(f: &TupleField) -> Vec<u8> {
    let mut out = Vec::new();
    encode_field_into(f, &mut out);
    out
}

#[test]
fn basic_retrieve() {
    let mut space = LocalSpace::new_sequential();
    space.put(pair(5i32, 'b'));
    let t = space.getp(q2(5i32.actual(), 'a'.formal())).unwrap();
    assert_eq!(5, first_i32(&t));
    assert_eq!('b', t.get_field(1).as_char().unwrap());
    assert_eq!(0, space.len());
}

#[test]
fn miss_on_type() {
    let mut space = LocalSpace::new_sequential();
    space.put(pair(5i32, 'b'));
    let r = space.queryp(q2(5i64.actual(), 'a'.formal()));
    assert_eq!(r.err(), Some(SpaceError::NotFound));
    assert_eq!(1, space.len());
}

#[test]
fn queue_ordering() {
    let mut space = LocalSpace::new_queue();
    space.put(pair(5i32, 'b'));
    space.put(pair(4i32, 'b'));
    assert!(space.getp(q2(4i32.actual(), 'a'.formal())).is_err());
    assert_eq!(5, first_i32(&space.getp(q2(5i32.actual(), 'a'.formal())).unwrap()));
    assert_eq!(4, first_i32(&space.getp(q2(4i32.actual(), 'a'.formal())).unwrap()));
}

#[test]
fn stack_ordering() {
    let mut space = LocalSpace::new_stack();
    space.put(pair(4i32, 'b'));
    space.put(pair(5i32, 'b'));
    assert!(space.getp(q2(4i32.actual(), 'a'.formal())).is_err());
    assert_eq!(5, first_i32(&space.getp(q2(5i32.actual(), 'a'.formal())).unwrap()));
    assert_eq!(4, first_i32(&space.getp(q2(4i32.actual(), 'a'.formal())).unwrap()));
}

#[test]
fn bulk() {
    let mut space = LocalSpace::new_sequential();
    space.put(pair(5i32, 'a'));
    space.put(pair(4i32, 'b'));
    space.put(pair(4i32, 'c'));
    let got = space.getall(q2(4i32.actual(), 'x'.formal()));
    assert_eq!(2, got.len());
    assert_eq!('b', got[0].get_field(1).as_char().unwrap());
    assert_eq!('c', got[1].get_field(1).as_char().unwrap());
    assert_eq!(1, space.len());
    let rest = space.queryall(q2(5i32.actual(), 'x'.formal()));
    assert_eq!('a', rest[0].get_field(1).as_char().unwrap());
}

#[test]
fn put_then_getp_under_every_policy() {
    for mut space in all_spaces() {
        space.put(pair(7u8, true));
        let t = space.getp(q2(7u8.actual(), false.formal())).unwrap();
        assert_eq!(Some(7), t.get_field(0).as_u8());
        assert_eq!(Some(true), t.get_field(1).as_bool());
        assert_eq!(0, space.len());
    }
}

#[test]
fn put_then_queryp_under_every_policy() {
    for mut space in all_spaces() {
        space.put(pair(String::from("k"), 3u16));
        let t = space.queryp(q2(String::from("k").actual(), 0u16.formal())).unwrap();
        assert_eq!(Some("k"), t.get_field(0).as_str());
        assert_eq!(Some(3), t.get_field(1).as_u16());
        assert_eq!(1, space.len());
    }
}

#[test]
fn every_kind_round_trips() {
    let fields = vec![
        TupleField::I8(-7),
        TupleField::I16(-300),
        TupleField::I32(i32::MIN),
        TupleField::I64(-1),
        TupleField::I128(i128::MAX),
        TupleField::U8(255),
        TupleField::U16(65535),
        TupleField::U32(123456),
        TupleField::U64(u64::MAX),
        TupleField::U128(1u128 << 100),
        TupleField::Usize(42),
        TupleField::Isize(-42),
        TupleField::Char('\u{1F600}'),
        TupleField::Bool(false),
        TupleField::Str(String::from("h\u{e9}llo")),
        TupleField::Custom(String::from("Point"), vec![1, 2, 3]),
    ];
    for f in fields.iter() {
        let bytes = encode_one(f);
        let (g, end) = decode_field(&bytes, 0).unwrap();
        assert_eq!(end, bytes.len());
        assert!(g.same_value(f));
    }
    let t = Tuple::new(fields);
    let back = decode_tuple(&encode_tuple(&t)).unwrap();
    assert_eq!(t.len(), back.len());
    for i in 0..t.len() {
        assert!(t.get_field(i).same_value(back.get_field(i)));
    }
}

#[test]
fn field_encoding_is_exact() {
    assert_eq!(encode_one(&TupleField::I32(5)), vec![2, 5, 0, 0, 0]);
    assert_eq!(encode_one(&TupleField::I16(-2)), vec![1, 0xfe, 0xff]);
    assert_eq!(encode_one(&TupleField::Bool(true)), vec![13, 1]);
    assert_eq!(
        encode_one(&TupleField::Str(String::from("hi"))),
        vec![14, 2, 0, 0, 0, 0, 0, 0, 0, b'h', b'i']
    );
    assert_eq!(encode_one(&TupleField::Char('A')), vec![12, 65, 0, 0, 0]);
}

#[test]
fn decoding_refuses_malformed_fields() {
    assert!(decode_field(&[], 0).is_none());
    assert!(decode_field(&[99, 0], 0).is_none());
    assert!(decode_field(&[2, 5, 0], 0).is_none());
    assert!(decode_field(&[13, 2], 0).is_none());
    // a surrogate is no char
    assert!(decode_field(&[12, 0x00, 0xd8, 0, 0], 0).is_none());
    // bytes that are not UTF-8
    assert!(decode_field(&[14, 1, 0, 0, 0, 0, 0, 0, 0, 0xff], 0).is_none());
    // a length beyond the input
    assert!(decode_field(&[14, 9, 0, 0, 0, 0, 0, 0, 0, b'a'], 0).is_none());
    let good = decode_field(&[14, 2, 0, 0, 0, 0, 0, 0, 0, 0xc3, 0xa9], 0).unwrap();
    assert_eq!(Some("\u{e9}"), good.0.as_str());
    let c = decode_field(&[12, 0x00, 0xe0, 0, 0], 0).unwrap();
    assert_eq!(Some('\u{e000}'), c.0.as_char());
    // trailing bytes are not a tuple
    let mut bytes = encode_tuple(&pair(1i32, 2i32));
    bytes.push(0);
    assert!(decode_tuple(&bytes).is_none());
}

#[test]
fn template_round_trip_keeps_matching() {
    let q = q2(5i32.actual(), 'a'.formal());
    let back = decode_template(&encode_template(&q)).unwrap();
    for t in [pair(5i32, 'z'), pair(6i32, 'z'), pair(5i64, 'z'), pair(5i32, 1u8)].iter() {
        assert_eq!(q.query(t), back.query(t));
    }
    assert!(back.query(&pair(5i32, 'z')));
    assert!(!back.query(&pair(6i32, 'z')));
}

#[test]
fn matching_is_nominal_and_needs_equal_length() {
    let formal = q2(0i32.formal(), 'a'.formal());
    assert!(formal.query(&pair(9i32, 'q')));
    assert!(!formal.query(&pair(9i64, 'q')));
    assert!(!formal.query(&pair(9u32, 'q')));
    let three = Tuple::new(vec![TupleField::I32(9), TupleField::Char('q'), TupleField::Bool(true)]);
    assert!(!formal.query(&three));
    let custom = Template::new_fields(vec![(TupleField::Custom(String::from("A"), vec![]), TemplateType::Formal)]);
    assert!(custom.query(&Tuple::new(vec![TupleField::Custom(String::from("A"), vec![7])])));
    assert!(!custom.query(&Tuple::new(vec![TupleField::Custom(String::from("B"), vec![7])])));
}

#[test]
fn queue_and_stack_do_not_scan() {
    let mut queue = LocalSpace::new_queue();
    queue.put(pair(1i32, 'x'));
    queue.put(pair(2i32, 'x'));
    assert_eq!(queue.queryp(q2(2i32.actual(), 'x'.formal())).err(), Some(SpaceError::NotFound));
    let mut stack = LocalSpace::new_stack();
    stack.put(pair(1i32, 'x'));
    stack.put(pair(2i32, 'x'));
    assert_eq!(stack.queryp(q2(1i32.actual(), 'x'.formal())).err(), Some(SpaceError::NotFound));
}

#[test]
fn sequential_lowest_pile_highest() {
    let mut seq = LocalSpace::new_sequential();
    let mut pile = LocalSpace::new_pile();
    for i in 0..4i32 {
        seq.put(pair(i, 'x'));
        pile.put(pair(i, 'x'));
    }
    seq.put(pair('n', 'x'));
    pile.put(pair('n', 'x'));
    let q = q2(0i32.formal(), 'x'.actual());
    assert_eq!(0, first_i32(&seq.getp(q.clone()).unwrap()));
    assert_eq!(3, first_i32(&pile.getp(q.clone()).unwrap()));
    assert_eq!(1, first_i32(&seq.getp(q.clone()).unwrap()));
    assert_eq!(2, first_i32(&pile.getp(q).unwrap()));
}

#[test]
fn random_selects_a_match() {
    let mut space = LocalSpace::new_random();
    assert_eq!(SpaceType::Random, space.spacetype());
    for i in 0..10i32 {
        space.put(pair(i, 'x'));
        space.put(pair('n', 'x'));
    }
    let q = q2(0i32.formal(), 'x'.actual());
    for _ in 0..10 {
        let t = space.getp(q.clone()).unwrap();
        assert!(t.get_field(0).as_i32().is_some());
    }
    assert!(space.getp(q).is_err());
    assert_eq!(10, space.len());
}

#[test]
fn select_with_pick_under_random() {
    let mut space = LocalSpace::new_random();
    space.put(pair(1i32, 'x'));
    space.put(pair('n', 'x'));
    space.put(pair(2i32, 'x'));
    let q = q2(0i32.formal(), 'x'.actual());
    assert_eq!(Some(0), space.select(&q, 0));
    assert_eq!(Some(2), space.select(&q, 1));
    assert_eq!(Some(0), space.select(&q, 2));
    let t = space.look_with(&q, true, 1).unwrap();
    assert_eq!(2, first_i32(&t));
    assert_eq!(vec![0usize], space.positions(&q));
}

#[test]
fn put_wakes_every_waiter() {
    let mut space = LocalSpace::new_sequential();
    let q = q2(5i32.actual(), 'a'.formal());
    assert!(space.look_or_wait(&q, true, 11).is_err());
    assert!(space.look_or_wait(&q, false, 12).is_err());
    let woken = space.put(pair(5i32, 'b'));
    assert_eq!(vec![11u64, 12], woken);
    let t = space.look_or_wait(&q, true, 11).unwrap();
    assert_eq!(5, first_i32(&t));
    assert!(space.put(pair(1i32, 'b')).is_empty());
}

#[test]
fn one_tuple_is_taken_once() {
    let mut space = LocalSpace::new_sequential();
    space.put(pair(5i32, 'b'));
    let q = q2(5i32.actual(), 'a'.formal());
    assert!(space.look_or_wait(&q, true, 1).is_ok());
    assert!(space.look_or_wait(&q, true, 2).is_err());
    let woken = space.put(pair(5i32, 'c'));
    assert_eq!(vec![2u64], woken);
}

#[test]
fn drain_filter_keeps_order() {
    let mut items = vec![pair(1i32, 'a'), pair(2i64, 'b'), pair(3i32, 'c'), pair(4i64, 'd')];
    let q = q2(0i32.formal(), 'a'.formal());
    let taken = drain_filter(&mut items, &q);
    assert_eq!(vec![1, 3], taken.iter().map(first_i32).collect::<Vec<_>>());
    assert_eq!(Some(2), items[0].get_field(0).as_i64());
    assert_eq!(Some(4), items[1].get_field(0).as_i64());
}

#[test]
fn dispatch_has_the_local_effect() {
    let mut remote = LocalSpace::new_sequential();
    let mut local = LocalSpace::new_sequential();
    let q = q2(5i32.actual(), 'a'.formal());
    match dispatch(&mut remote, put_request(pair(5i32, 'b')), 1) {
        Dispatch::Reply { response, woken } => {
            assert_eq!(MessageType::Success, response.action);
            assert!(woken.is_empty());
        }
        _ => panic!("a put is answered"),
    }
    local.put(pair(5i32, 'b'));
    assert_eq!(local.len(), remote.len());
    match dispatch(&mut remote, request(MessageType::Queryp, q.clone()), 1) {
        Dispatch::Reply { response, .. } => assert_eq!(5, first_i32(&single_result(response).unwrap())),
        _ => panic!("queryp is answered"),
    }
    match dispatch(&mut remote, request(MessageType::Get, q.clone()), 1) {
        Dispatch::Reply { response, .. } => assert_eq!(5, first_i32(&single_result(response).unwrap())),
        _ => panic!("get with a match is answered"),
    }
    local.getp(q.clone()).unwrap();
    assert_eq!(local.len(), remote.len());
    match dispatch(&mut remote, request(MessageType::Getp, q.clone()), 1) {
        Dispatch::Reply { response, .. } => {
            assert_eq!(MessageType::Error, response.action);
            assert_eq!(Err(SpaceError::NotFound), single_result(response).map(|_| ()));
        }
        _ => panic!("getp is answered"),
    }
    assert!(matches!(dispatch(&mut remote, request(MessageType::Query, q.clone()), 9), Dispatch::Wait));
    match dispatch(&mut remote, put_request(pair(5i32, 'c')), 1) {
        Dispatch::Reply { woken, .. } => assert_eq!(vec![9u64], woken),
        _ => panic!("a put is answered"),
    }
    match dispatch(&mut remote, request(MessageType::Getall, q.clone()), 1) {
        Dispatch::Reply { response, .. } => assert_eq!(1, bulk_result(response).unwrap().len()),
        _ => panic!("getall is answered"),
    }
    assert_eq!(0, remote.len());
    let empty_put = bare(MessageType::Put);
    assert!(matches!(dispatch(&mut remote, empty_put, 1), Dispatch::Reject));
    match dispatch(&mut remote, bare(MessageType::Success), 1) {
        Dispatch::Reply { response, .. } => assert_eq!(MessageType::Success, response.action),
        _ => panic!("an echo is answered"),
    }
}

#[test]
fn client_reads_responses() {
    assert_eq!(Err(SpaceError::Refused), single_result(bare(MessageType::Success)).map(|_| ()));
    assert_eq!(Err(SpaceError::Refused), single_result(bare(MessageType::Put)).map(|_| ()));
    assert_eq!(Err(SpaceError::NotFound), single_result(bare(MessageType::Error)).map(|_| ()));
    assert_eq!(Ok(()), put_result(&bare(MessageType::Success)));
    assert_eq!(Err(SpaceError::Refused), put_result(&bare(MessageType::Error)));
    assert_eq!(Err(SpaceError::Refused), bulk_result(bare(MessageType::Error)).map(|_| ()));
}

#[test]
fn address_splits_at_last_slash() {
    let (host, name) = parse_address("127.0.0.1:3800/space").unwrap();
    assert_eq!("127.0.0.1:3800", host);
    assert_eq!("space", name);
    let (host, name) = parse_address("a/b/c").unwrap();
    assert_eq!("a/b", host);
    assert_eq!("c", name);
    let (host, name) = parse_address("h/").unwrap();
    assert_eq!("h", host);
    assert_eq!("", name);
    assert_eq!(Err(SpaceError::InvalidInput), parse_address("localhost:1"));
}

#[test]
fn handshake_bytes() {
    assert_eq!(b"t".to_vec(), handshake_reply(true));
    assert_eq!(b"f".to_vec(), handshake_reply(false));
    assert!(handshake_accepted(b"t"));
    assert!(!handshake_accepted(b"f"));
    assert!(!handshake_accepted(b"tt"));
    assert!(!handshake_accepted(b""));
}

#[test]
fn frames_carry_messages() {
    let m = request(MessageType::Queryall, q2(1i32.actual(), 'a'.formal()));
    let frame = encode_frame(&m);
    let n = frame_length(&frame[..FRAME_HEADER]) as usize;
    assert_eq!(frame.len(), FRAME_HEADER + n);
    let back = decode_message(&frame[FRAME_HEADER..]).unwrap();
    assert_eq!(MessageType::Queryall, back.action);
    assert_eq!(encode_message(&m), encode_message(&back));
    assert!(decode_message(&[9]).is_none());
    assert!(decode_message(&[]).is_none());
}

#[test]
fn repository_gates_by_name() {
    let mut repo: Repository<u32, u32> = Repository::new();
    assert_eq!(None, repo.add_gate(String::from("g"), 1));
    assert_eq!(Some(1), repo.add_gate(String::from("g"), 2));
    assert_eq!(None, repo.close_gate(String::from("other")));
    assert_eq!(Some(2), repo.close_gate(String::from("g")));
    assert_eq!(None, repo.close_gate(String::from("g")));
    repo.add_space(String::from("s"), 7);
    repo.add_space(String::from("s"), 8);
    assert_eq!(Some(&8), repo.get_space(String::from("s")));
    repo.del_space(String::from("s"));
    assert_eq!(None, repo.get_space(String::from("s")));
}


#[test]
fn connection_rules() {
    assert_eq!(ConnectionStep::Serve, connection_step(ConnectionEvent::Request));
    assert_eq!(ConnectionStep::Retry, connection_step(ConnectionEvent::TimedOut));
    assert_eq!(ConnectionStep::Retry, connection_step(ConnectionEvent::Interrupted));
    assert_eq!(ConnectionStep::Stop, connection_step(ConnectionEvent::Closed));
    assert_eq!(ConnectionStep::Stop, connection_step(ConnectionEvent::Malformed));
    assert_eq!(ConnectionStep::Stop, connection_step(ConnectionEvent::Shutdown));
    assert_eq!(ConnectionStep::Stop, connection_step(ConnectionEvent::Failed));
}

#[test]
fn responses_carry_no_template() {
    let mut space = LocalSpace::new_sequential();
    space.put(pair(1i32, 'a'));
    let q = q2(1i32.actual(), 'a'.formal());
    for action in [MessageType::Getp, MessageType::Queryall, MessageType::Error, MessageType::Getall] {
        match dispatch(&mut space, request(action, q.clone()), 0) {
            Dispatch::Reply { response, .. } => assert!(response.template.fields.is_empty()),
            _ => panic!("answered"),
        }
    }
}
