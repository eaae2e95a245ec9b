use std::sync::Arc;
use std::sync::Mutex;

use rspaces::codec::decode_message;
use rspaces::codec::decode_template;
use rspaces::codec::decode_tuple;
use rspaces::codec::encode_message;
use rspaces::codec::encode_template;
use rspaces::codec::encode_tuple;
use rspaces::FieldType;
use rspaces::LocalSpace;
use rspaces::Message;
use rspaces::MessageType;
use rspaces::Repository;
use rspaces::Template;
use rspaces::TemplateType;
use rspaces::Tuple;
use rspaces::TupleField;

fn pair<A: FieldType, B: FieldType>(a: A, b: B) -> Tuple {
    Tuple::new(vec![a.into_field(), b.into_field()])
}

fn template2(a: (TupleField, TemplateType), b: (TupleField, TemplateType)) -> Template {
    Template::new_fields(vec![a, b])
}

#[test]
fn anytest() {
    let x: TupleField = 20i32.into_field();
    let y = x.as_i32();
    assert_eq!(20, y.unwrap());
}

#[test]
fn tuple_test() {
    let a = 5i32;
    let b = 'b';
    let fields: Vec<TupleField> = vec![TupleField::I32(a), TupleField::Char(b)];
    let tuple = Tuple::new(fields);

    let x = tuple.get_field(0).as_i32().expect("could not cast");
    assert_eq!(5, x);
    let _x = tuple.get_field(1).as_char().expect("could not cast");
}

#[test]
fn tuple_test_failing() {
    let a: i32 = 5;
    let b: char = 'b';
    let fields: Vec<TupleField> = vec![TupleField::I32(a), TupleField::Char(b)];
    let tuple = Tuple::new(fields);

    match tuple.get_field(0).as_u64() {
        Some(_x) => {
            assert!(false, "Got something, when we should not");
        }
        None => assert!(true),
    }
}

#[test]
fn space_search() {
    let mut space = LocalSpace::new_sequential();
    let a: i32 = 5;
    let b = 'b';
    let fields: Vec<TupleField> = vec![TupleField::I32(a), TupleField::Char(b)];
    let tuple = Tuple::new(fields);
    space.put(tuple);
    let q = template2(5i32.actual(), 'a'.formal());
    let t = space.look_or_wait(&q, true, 0).unwrap();
    assert_eq!(5, t.get_field(0).as_i32().unwrap());
    assert_eq!('b', t.get_field(1).as_char().unwrap());
}

#[test]
fn space_search_failing() {
    let mut space = LocalSpace::new_sequential();
    let tuple = pair(5i32, 'b');
    space.put(tuple);
    let mut q = Template::new();
    q.fields.push(5i32.actual());
    q.fields.push(true.formal());
    if let Ok(_t) = space.getp(q) {
        assert!(false, "We found touple and we should not");
    } else {
        assert!(true);
    }
}

#[test]
fn getall() {
    let mut space = LocalSpace::new_sequential();
    space.put(pair(5i32, 'b'));
    space.put(pair(5i32, 'c'));
    let mut q = Template::new();
    q.fields.push(5i32.actual());
    q.fields.push('a'.formal());
    let tvec = space.getall(q);
    let t = tvec.get(0).expect("should be touple");
    assert_eq!(5, t.get_field(0).as_i32().unwrap());
    assert_eq!('b', t.get_field(1).as_char().unwrap());
    let t = tvec.get(1).expect("should be touple");
    assert_eq!(5, t.get_field(0).as_i32().unwrap());
    assert_eq!('c', t.get_field(1).as_char().unwrap());
    assert_eq!(0, space.len());
}

#[test]
fn queryall() {
    let mut space = LocalSpace::new_sequential();
    space.put(pair(5i32, 'b'));
    space.put(pair(5i32, 'c'));
    let mut q = Template::new();
    q.fields.push(5i32.actual());
    q.fields.push('b'.formal());
    let tvec = space.queryall(q);
    let t = tvec.get(0).expect("should be touple");
    assert_eq!(5, t.get_field(0).as_i32().unwrap());
    assert_eq!('b', t.get_field(1).as_char().unwrap());
    let t = tvec.get(1).expect("should be touple");
    assert_eq!(5, t.get_field(0).as_i32().unwrap());
    assert_eq!('c', t.get_field(1).as_char().unwrap());
    assert_eq!(2, space.len());
}

#[test]
fn macro_test() {
    let mut space = LocalSpace::new_sequential();
    space.put(pair(5i32, 'b'));
    let q = template2(5i32.actual(), 'a'.formal());
    let t = space.look_or_wait(&q, true, 0).unwrap();
    assert_eq!(5, t.get_field(0).as_i32().unwrap());
    assert_eq!('b', t.get_field(1).as_char().unwrap());
}

#[test]
fn ordering_sequential() {
    let mut space = LocalSpace::new_pile();
    space.put(pair('a', 'b'));
    space.put(pair(5i32, 'b'));
    space.put(pair(4i32, 'b'));

    let q = template2(5i32.actual(), 'a'.formal());
    let t = space.look_or_wait(&q, true, 0).unwrap();
    assert_eq!(5, t.get_field(0).as_i32().unwrap());
    assert_eq!('b', t.get_field(1).as_char().unwrap());

    let q = template2(4i32.actual(), 'a'.formal());
    let t = space.look_or_wait(&q, true, 0).unwrap();
    assert_eq!(4, t.get_field(0).as_i32().unwrap());
    assert_eq!('b', t.get_field(1).as_char().unwrap());
}

#[test]
fn ordering_queue() {
    let mut space = LocalSpace::new_queue();
    space.put(pair(5i32, 'b'));
    space.put(pair(4i32, 'b'));

    let q = template2(4i32.actual(), 'a'.formal());
    if let Ok(_t) = space.getp(q) {
        assert!(false, "Found tuple and should not")
    } else {
        assert!(true);
    }

    let q = template2(5i32.actual(), 'a'.formal());
    let t = space.look_or_wait(&q, true, 0).unwrap();
    assert_eq!(5, t.get_field(0).as_i32().unwrap());
    assert_eq!('b', t.get_field(1).as_char().unwrap());

    let q = template2(4i32.actual(), 'a'.formal());
    let t = space.look_or_wait(&q, true, 0).unwrap();
    assert_eq!(4, t.get_field(0).as_i32().unwrap());
    assert_eq!('b', t.get_field(1).as_char().unwrap());
}

#[test]
fn ordering_stack() {
    let mut space = LocalSpace::new_stack();
    space.put(pair(4i32, 'b'));
    space.put(pair(5i32, 'b'));

    let q = template2(4i32.actual(), 'a'.formal());
    if let Ok(_t) = space.getp(q) {
        assert!(false, "Found tuple and should not")
    } else {
        assert!(true);
    }
    let q = template2(5i32.actual(), 'a'.formal());
    let t = space.look_or_wait(&q, true, 0).unwrap();
    assert_eq!(5, t.get_field(0).as_i32().unwrap());
    assert_eq!('b', t.get_field(1).as_char().unwrap());

    let q = template2(4i32.actual(), 'a'.formal());
    let t = space.look_or_wait(&q, true, 0).unwrap();
    assert_eq!(4, t.get_field(0).as_i32().unwrap());
    assert_eq!('b', t.get_field(1).as_char().unwrap());
}

#[test]
fn ordering_pile() {
    let mut space = LocalSpace::new_pile();
    space.put(pair(4i32, 'b'));
    space.put(pair(5i32, 'b'));
    space.put(pair('a', 'b'));

    let q = template2(5i32.actual(), 'a'.formal());
    let t = space.look_or_wait(&q, true, 0).unwrap();
    assert_eq!(5, t.get_field(0).as_i32().unwrap());
    assert_eq!('b', t.get_field(1).as_char().unwrap());

    let q = template2(4i32.actual(), 'a'.formal());
    let t = space.look_or_wait(&q, true, 0).unwrap();
    assert_eq!(4, t.get_field(0).as_i32().unwrap());
    assert_eq!('b', t.get_field(1).as_char().unwrap());
}

type Shared = Arc<Mutex<LocalSpace>>;

#[test]
fn repository() {
    let mut repo: Repository<Shared, ()> = Repository::new();
    let space1: Shared = Arc::new(Mutex::new(LocalSpace::new_sequential()));
    let space2: Shared = Arc::new(Mutex::new(LocalSpace::new_sequential()));
    repo.add_space(String::from("space1"), Arc::clone(&space1));
    repo.add_space(String::from("space2"), Arc::clone(&space2));
    {
        let s1 = repo.get_space(String::from("space1")).expect("Should have found space");
        let s2 = repo.get_space(String::from("space2")).expect("Should have found space");
        s1.lock().unwrap().put(pair(4i32, 'b'));
        s2.lock().unwrap().put(pair(5i32, 'b'));
    }
    let q = template2(5i32.actual(), 'a'.formal());
    let t = space2.lock().unwrap().look_or_wait(&q, true, 0).unwrap();
    assert_eq!(5, t.get_field(0).as_i32().unwrap());
    assert_eq!('b', t.get_field(1).as_char().unwrap());

    let q = template2(4i32.actual(), 'a'.formal());
    let t = space1.lock().unwrap().look_or_wait(&q, true, 0).unwrap();
    assert_eq!(4, t.get_field(0).as_i32().unwrap());
    assert_eq!('b', t.get_field(1).as_char().unwrap());
}

#[test]
fn multiple_repository() {
    let mut repo1: Repository<Shared, ()> = Repository::new();
    let mut repo2: Repository<Shared, ()> = Repository::new();
    let space1: Shared = Arc::new(Mutex::new(LocalSpace::new_sequential()));
    let space2: Shared = Arc::new(Mutex::new(LocalSpace::new_sequential()));
    let space3: Shared = Arc::new(Mutex::new(LocalSpace::new_sequential()));
    repo1.add_space(String::from("space1"), Arc::clone(&space1));
    repo1.add_space(String::from("space2"), Arc::clone(&space2));
    repo2.add_space(String::from("space2"), Arc::clone(&space2));
    repo2.add_space(String::from("space3"), Arc::clone(&space3));
    {
        let s1 = repo1.get_space(String::from("space1")).expect("Should have found space");
        let s2 = repo1.get_space(String::from("space2")).expect("Should have found space");
        s1.lock().unwrap().put(pair(4i32, 'b'));
        s2.lock().unwrap().put(pair(5i32, 'b'));
    }
    {
        let s2 = repo2.get_space(String::from("space2")).expect("Should have found space");
        let s3 = repo2.get_space(String::from("space3")).expect("Should have found space");
        s2.lock().unwrap().put(pair(4i32, 'b'));
        s3.lock().unwrap().put(pair(5i32, 'b'));
    }

    let q = template2(4i32.actual(), 'a'.formal());
    let t = space2.lock().unwrap().look_or_wait(&q, true, 0).unwrap();
    assert_eq!(4, t.get_field(0).as_i32().unwrap());
    assert_eq!('b', t.get_field(1).as_char().unwrap());

    let q = template2(5i32.actual(), 'a'.formal());
    let t = space2.lock().unwrap().look_or_wait(&q, true, 0).unwrap();
    assert_eq!(5, t.get_field(0).as_i32().unwrap());
    assert_eq!('b', t.get_field(1).as_char().unwrap());

    let q = template2(4i32.actual(), 'a'.formal());
    let t = space1.lock().unwrap().look_or_wait(&q, true, 0).unwrap();
    assert_eq!(4, t.get_field(0).as_i32().unwrap());
    assert_eq!('b', t.get_field(1).as_char().unwrap());

    let q = template2(5i32.actual(), 'a'.formal());
    let t = space3.lock().unwrap().look_or_wait(&q, true, 0).unwrap();
    assert_eq!(5, t.get_field(0).as_i32().unwrap());
    assert_eq!('b', t.get_field(1).as_char().unwrap());
}

#[test]
fn repository_delete() {
    let mut repo: Repository<Shared, ()> = Repository::new();
    let space1: Shared = Arc::new(Mutex::new(LocalSpace::new_sequential()));
    let space2: Shared = Arc::new(Mutex::new(LocalSpace::new_sequential()));
    repo.add_space(String::from("space1"), Arc::clone(&space1));
    repo.add_space(String::from("space2"), Arc::clone(&space2));
    repo.del_space(String::from("space1"));
    match repo.get_space(String::from("space1")) {
        Some(_) => assert!(false, "space should have been deleted"),
        None => assert!(true),
    }
}

#[test]
fn seri_test() {
    let a: i32 = 5;
    let b = 'b';
    let fields: Vec<TupleField> = vec![TupleField::I32(a), TupleField::Char(b)];
    let tuple = Tuple::new(fields);
    let v = encode_tuple(&tuple);
    let x: Tuple = decode_tuple(&v).unwrap();
    let ap = x.get_field(0).as_i32().expect("could not cast");
    assert_eq!(5, ap);
    let bp = tuple.get_field(1).as_char().expect("could not cast");
    assert_eq!('b', bp);
}

struct TestStruct {
    x: i32,
    y: f64,
}

impl TestStruct {
    fn to_field(&self) -> TupleField {
        let mut data = self.x.to_le_bytes().to_vec();
        data.extend_from_slice(&self.y.to_bits().to_le_bytes());
        TupleField::Custom(String::from("TestStruct"), data)
    }

    fn from_field(f: &TupleField) -> Option<TestStruct> {
        let (kind, data) = f.as_custom()?;
        if kind != "TestStruct" || data.len() != 12 {
            return None;
        }
        let x = i32::from_le_bytes(data[0..4].try_into().unwrap());
        let y = f64::from_bits(u64::from_le_bytes(data[4..12].try_into().unwrap()));
        Some(TestStruct { x, y })
    }
}

#[test]
fn seri_test_custom() {
    let a: i32 = 5;
    let b = TestStruct { x: 27, y: 65.7 };
    let fields: Vec<TupleField> = vec![TupleField::I32(a), b.to_field()];
    let tuple = Tuple::new(fields);
    let v = encode_tuple(&tuple);
    let x: Tuple = decode_tuple(&v).unwrap();
    let ap = x.get_field(0).as_i32().expect("could not cast");
    assert_eq!(5, ap);
    let bp = TestStruct::from_field(x.get_field(1)).expect("could not cast");
    assert_eq!(27, bp.x);
    assert_eq!(65.7, bp.y);
}

#[test]
fn seri_test_template() {
    let mut space = LocalSpace::new_sequential();
    space.put(pair(5i32, 'b'));
    let q = template2(5i32.actual(), 'a'.formal());
    let q_bytes = encode_template(&q);
    let template: Template = decode_template(&q_bytes).unwrap();

    let t = space.look_or_wait(&template, true, 0).unwrap();
    assert_eq!(5, t.get_field(0).as_i32().unwrap());
    assert_eq!('b', t.get_field(1).as_char().unwrap());
}

#[test]
fn typing_test() {
    let mut space = LocalSpace::new_sequential();
    space.put(pair(5i32, 7i32));
    let template = template2(5i32.actual(), 7i32.actual());
    let tuple = space.look_or_wait(&template, false, 0).unwrap();
    assert_eq!(5, tuple.get_field(0).as_i32().unwrap());
    assert_eq!(7, tuple.get_field(1).as_i32().unwrap());
    let x: i64 = 5;
    let temp2 = template2(x.actual(), 7i32.actual());
    match space.queryp(temp2) {
        Ok(_) => {
            assert!(false, "Should not have found as different data types")
        }
        Err(_) => assert!(true),
    }
}

#[test]
fn message_test() {
    let mut space = LocalSpace::new_sequential();
    let m = Message {
        action: MessageType::Put,
        tuple: vec![pair(5i32, 'b')],
        template: Template::new(),
    };
    let m_bytes = encode_message(&m);
    let mut m_from_bytes: Message = decode_message(&m_bytes).expect("please");
    assert_eq!(m_from_bytes.action, MessageType::Put);
    let tuple = m_from_bytes.tuple.remove(0);
    assert_eq!(5, tuple.get_field(0).as_i32().unwrap());
    assert_eq!('b', tuple.get_field(1).as_char().unwrap());
    space.put(tuple);
    let m = Message {
        action: MessageType::Get,
        tuple: Vec::new(),
        template: template2(5i32.actual(), 'a'.formal()),
    };
    let m_bytes = encode_message(&m);
    let m_from_bytes: Message = decode_message(&m_bytes).expect("please");
    assert_eq!(m_from_bytes.action, MessageType::Get);
    let template = m_from_bytes.template;
    let tuple = space.look_or_wait(&template, true, 0).unwrap();
    assert_eq!(5, tuple.get_field(0).as_i32().unwrap());
    assert_eq!('b', tuple.get_field(1).as_char().unwrap());
}
