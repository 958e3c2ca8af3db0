use std::collections::HashMap;

use jvm::class::parser::class_file;
use jvm::class::structs::Class as RawClass;
use jvm::descriptor::FieldType;
use jvm::runtime::class_loader::bootstrap::ModuleLoader;
use jvm::runtime::class_loader::load::{
    define_loaded, genesis, load_class, GenesisError, LoadError,
};
use jvm::runtime::interpreter::frame::{Frame, FrameError};
use jvm::runtime::class_loader::bootstrap::{BootstrapClassLoader, DefineError};
use jvm::runtime::famous_classes::init_famous_classes;
use jvm::runtime::class_loader::LinkError;
use jvm::runtime::interpreter::float_ops::{apply_float_result, float_operands, FloatRequest};
use jvm::runtime::interpreter::local::Outcome;
use jvm::runtime::interpreter::thread::{Status, Thread};
use jvm::runtime::native::bridge::{
    call_native, CLASS_REGISTER_NATIVES, SYSTEM_CURRENT_TIME_MILLIS, SYSTEM_REGISTER_NATIVES,
};
use jvm::runtime::interpreter::variable::Variable;
use jvm::runtime::native::bridge::{register, NATIVE_NOP};
use jvm::runtime::native::system::native_system_arraycopy;
use jvm::runtime::native::{NativeOutcome, NativeVariable};
use jvm::runtime::structs::attributes::AttributeInfo;
use jvm::runtime::structs::exception::{Exception, VmExceptionKind};
use jvm::runtime::structs::ClinitStatus;
use jvm::runtime::Vm;

const PUBLIC: u16 = 0x0001;
const STATIC: u16 = 0x0008;
const NATIVE: u16 = 0x0100;
const INTERFACE: u16 = 0x0600;

struct ClassFile {
    pool: Vec<u8>,
    slots: u16,
    flags: u16,
    this: u16,
    parent: u16,
    interfaces: Vec<u16>,
    fields: Vec<Vec<u8>>,
    methods: Vec<Vec<u8>>,
    attributes: Vec<Vec<u8>>,
}

fn put16(out: &mut Vec<u8>, v: u16) {
    out.extend_from_slice(&v.to_be_bytes());
}

fn put32(out: &mut Vec<u8>, v: u32) {
    out.extend_from_slice(&v.to_be_bytes());
}

impl ClassFile {
    fn new(name: &str, parent: Option<&str>, flags: u16) -> ClassFile {
        let mut file = ClassFile {
            pool: vec![],
            slots: 0,
            flags,
            this: 0,
            parent: 0,
            interfaces: vec![],
            fields: vec![],
            methods: vec![],
            attributes: vec![],
        };
        file.this = file.class(name);
        if let Some(parent) = parent {
            file.parent = file.class(parent);
        }
        file
    }

    fn utf8(&mut self, text: &str) -> u16 {
        self.pool.push(1);
        put16(&mut self.pool, text.len() as u16);
        self.pool.extend_from_slice(text.as_bytes());
        self.slots += 1;
        self.slots
    }

    fn class(&mut self, name: &str) -> u16 {
        let name = self.utf8(name);
        self.pool.push(7);
        put16(&mut self.pool, name);
        self.slots += 1;
        self.slots
    }

    fn string(&mut self, text: &str) -> u16 {
        let text = self.utf8(text);
        self.pool.push(8);
        put16(&mut self.pool, text);
        self.slots += 1;
        self.slots
    }

    fn long(&mut self, v: i64) -> u16 {
        self.pool.push(5);
        self.pool.extend_from_slice(&v.to_be_bytes());
        self.slots += 2;
        self.slots - 1
    }

    fn member(&mut self, tag: u8, class: &str, name: &str, descriptor: &str) -> u16 {
        let class = self.class(class);
        let name = self.utf8(name);
        let descriptor = self.utf8(descriptor);
        self.pool.push(12);
        put16(&mut self.pool, name);
        put16(&mut self.pool, descriptor);
        self.slots += 1;
        let pair = self.slots;
        self.pool.push(tag);
        put16(&mut self.pool, class);
        put16(&mut self.pool, pair);
        self.slots += 1;
        self.slots
    }

    fn field_ref(&mut self, class: &str, name: &str, descriptor: &str) -> u16 {
        self.member(9, class, name, descriptor)
    }

    fn method_ref(&mut self, class: &str, name: &str, descriptor: &str) -> u16 {
        self.member(10, class, name, descriptor)
    }

    fn interface_method_ref(&mut self, class: &str, name: &str, descriptor: &str) -> u16 {
        self.member(11, class, name, descriptor)
    }

    fn interface(&mut self, name: &str) {
        let index = self.class(name);
        self.interfaces.push(index);
    }

    fn field(&mut self, flags: u16, name: &str, descriptor: &str) {
        let mut out = vec![];
        put16(&mut out, flags);
        let name = self.utf8(name);
        put16(&mut out, name);
        let descriptor = self.utf8(descriptor);
        put16(&mut out, descriptor);
        put16(&mut out, 0);
        self.fields.push(out);
    }

    fn method(&mut self, flags: u16, name: &str, descriptor: &str, code: &[u8]) {
        self.method_with(flags, name, descriptor, Some(code), &[]);
    }

    fn method_with(
        &mut self,
        flags: u16,
        name: &str,
        descriptor: &str,
        code: Option<&[u8]>,
        handlers: &[(u16, u16, u16, u16)],
    ) {
        let mut out = vec![];
        put16(&mut out, flags);
        let name = self.utf8(name);
        put16(&mut out, name);
        let descriptor = self.utf8(descriptor);
        put16(&mut out, descriptor);
        match code {
            None => put16(&mut out, 0),
            Some(code) => {
                put16(&mut out, 1);
                let attribute = self.utf8("Code");
                put16(&mut out, attribute);
                put32(&mut out, 12 + code.len() as u32 + 8 * handlers.len() as u32);
                put16(&mut out, 8);
                put16(&mut out, 8);
                put32(&mut out, code.len() as u32);
                out.extend_from_slice(code);
                put16(&mut out, handlers.len() as u16);
                for (start, end, handler, catch) in handlers {
                    put16(&mut out, *start);
                    put16(&mut out, *end);
                    put16(&mut out, *handler);
                    put16(&mut out, *catch);
                }
                put16(&mut out, 0);
            }
        }
        self.methods.push(out);
    }

    fn bytes(&self) -> Vec<u8> {
        let mut out = vec![0xca, 0xfe, 0xba, 0xbe];
        put16(&mut out, 0);
        put16(&mut out, 61);
        put16(&mut out, self.slots + 1);
        out.extend_from_slice(&self.pool);
        put16(&mut out, self.flags);
        put16(&mut out, self.this);
        put16(&mut out, self.parent);
        put16(&mut out, self.interfaces.len() as u16);
        for index in &self.interfaces {
            put16(&mut out, *index);
        }
        put16(&mut out, self.fields.len() as u16);
        for field in &self.fields {
            out.extend_from_slice(field);
        }
        put16(&mut out, self.methods.len() as u16);
        for method in &self.methods {
            out.extend_from_slice(method);
        }
        put16(&mut out, self.attributes.len() as u16);
        for attribute in &self.attributes {
            out.extend_from_slice(attribute);
        }
        out
    }

    fn integer(&mut self, v: i32) -> u16 {
        self.pool.push(3);
        self.pool.extend_from_slice(&v.to_be_bytes());
        self.slots += 1;
        self.slots
    }

    fn attribute(&mut self, name: &str, content: &[u8]) -> Vec<u8> {
        let mut out = vec![];
        let name = self.utf8(name);
        put16(&mut out, name);
        put32(&mut out, content.len() as u32);
        out.extend_from_slice(content);
        out
    }

    fn constant_field(&mut self, flags: u16, name: &str, descriptor: &str, value: u16) {
        let mut out = vec![];
        put16(&mut out, flags);
        let name = self.utf8(name);
        put16(&mut out, name);
        let descriptor = self.utf8(descriptor);
        put16(&mut out, descriptor);
        put16(&mut out, 1);
        let attribute = self.attribute("ConstantValue", &value.to_be_bytes());
        out.extend_from_slice(&attribute);
        self.fields.push(out);
    }
}

fn hi(v: u16) -> u8 {
    (v >> 8) as u8
}

fn lo(v: u16) -> u8 {
    v as u8
}

struct Memory {
    files: HashMap<String, Vec<u8>>,
}

impl ModuleLoader for Memory {
    fn packages(&self) -> Vec<String> {
        vec!["java/lang".to_string(), "java/io".to_string(), "".to_string()]
    }

    fn name(&self) -> String {
        "memory".to_string()
    }

    fn get_class_file(&self, class_name: &str) -> Option<RawClass> {
        let name = class_name.strip_suffix(".class")?;
        self.files.get(name).map(|bytes| class_file(bytes).unwrap())
    }
}

fn plain(name: &str, parent: &str) -> ClassFile {
    let mut file = ClassFile::new(name, Some(parent), PUBLIC);
    let init = file.method_ref(parent, "<init>", "()V");
    file.method(PUBLIC, "<init>", "()V", &[0x2a, 0xb7, hi(init), lo(init), 0xb1]);
    file
}

fn library() -> Memory {
    let mut files = HashMap::new();
    let mut object = ClassFile::new("java/lang/Object", None, PUBLIC);
    object.method(PUBLIC, "<init>", "()V", &[0xb1]);
    object.method_with(PUBLIC | NATIVE, "hashCode", "()I", None, &[]);
    object.method_with(0x0004 | NATIVE, "clone", "()Ljava/lang/Object;", None, &[]);
    files.insert("java/lang/Object".to_string(), object.bytes());
    for name in ["java/lang/Cloneable", "java/io/Serializable"] {
        files.insert(
            name.to_string(),
            ClassFile::new(name, Some("java/lang/Object"), PUBLIC | INTERFACE).bytes(),
        );
    }
    let mut string = plain("java/lang/String", "java/lang/Object");
    string.field(0x0012, "value", "[B");
    string.field(0x0012, "coder", "B");
    string.field(0x0002, "hash", "I");
    string.field(0x0002, "hashIsZero", "Z");
    files.insert("java/lang/String".to_string(), string.bytes());
    let mut class = plain("java/lang/Class", "java/lang/Object");
    class.field(0x0002, "name", "Ljava/lang/String;");
    class.field(0x0002, "packageName", "Ljava/lang/String;");
    files.insert("java/lang/Class".to_string(), class.bytes());
    let tree = [
        ("java/lang/System", "java/lang/Object"),
        ("java/lang/Throwable", "java/lang/Object"),
        ("java/lang/Error", "java/lang/Throwable"),
        ("java/lang/Exception", "java/lang/Throwable"),
        ("java/lang/RuntimeException", "java/lang/Exception"),
        ("java/lang/LinkageError", "java/lang/Error"),
        ("java/lang/NullPointerException", "java/lang/RuntimeException"),
        ("java/lang/ArithmeticException", "java/lang/RuntimeException"),
        ("java/lang/NegativeArraySizeException", "java/lang/RuntimeException"),
        ("java/lang/IndexOutOfBoundsException", "java/lang/RuntimeException"),
        ("java/lang/ArrayIndexOutOfBoundsException", "java/lang/IndexOutOfBoundsException"),
        ("java/lang/ArrayStoreException", "java/lang/RuntimeException"),
        ("java/lang/ClassCastException", "java/lang/RuntimeException"),
        ("java/lang/IllegalMonitorStateException", "java/lang/RuntimeException"),
        ("java/lang/NoSuchFieldError", "java/lang/LinkageError"),
        ("java/lang/NoSuchMethodError", "java/lang/LinkageError"),
        ("java/lang/ClassFormatError", "java/lang/LinkageError"),
        ("java/lang/NoClassDefFoundError", "java/lang/LinkageError"),
        ("java/lang/ExceptionInInitializerError", "java/lang/LinkageError"),
        ("java/lang/CloneNotSupportedException", "java/lang/Exception"),
        ("java/lang/StackOverflowError", "java/lang/Error"),
    ];
    for (name, parent) in tree {
        files.insert(name.to_string(), plain(name, parent).bytes());
    }
    Memory { files }
}

fn machine(extra: Vec<ClassFile>) -> (Vm, Vec<Memory>) {
    let mut memory = library();
    for file in extra {
        let raw = class_file(&file.bytes()).unwrap();
        let name = match &raw.constant_pool[(raw.this_class - 1) as usize] {
            jvm::class::structs::ConstantPoolInfo::Class { name_index } => {
                match &raw.constant_pool[(*name_index - 1) as usize] {
                    jvm::class::structs::ConstantPoolInfo::Utf8(text) => text.to_str().unwrap(),
                    _ => panic!("no name"),
                }
            }
            _ => panic!("no class"),
        };
        memory.files.insert(name, file.bytes());
    }
    let modules = vec![memory];
    let vm = genesis(&modules, true, false, 64).unwrap();
    (vm, modules)
}

fn start(vm: &mut Vm, modules: &Vec<Memory>, class: &str, method: &str) -> Thread {
    let mut thread = Thread::new(vm, 64).unwrap();
    loop {
        match thread.new_main_frame(vm, class, method, &vec![]) {
            Status::Running => return thread,
            Status::LoadClass(name) => {
                load_class(&mut vm.loader, modules, &name, 64).unwrap();
            }
            other => panic!("{other:?}"),
        }
    }
}

/// Runs the thread to its end; gives how it ended and every value that a
/// frame returned to the frame below it.
fn drive(thread: &mut Thread, vm: &mut Vm, modules: &Vec<Memory>) -> (Status, Vec<i32>) {
    let mut returned = vec![];
    for _ in 0..100_000 {
        let depth = thread.frames.len();
        let height = if depth >= 2 { thread.frames[depth - 2].stack.len() } else { 0 };
        let (status, steps) = thread.execute(vm, 1);
        assert!(steps <= 1);
        if thread.frames.len() + 1 == depth && depth >= 2 {
            let stack = &thread.frames[depth - 2].stack;
            if stack.len() > height {
                returned.push(stack[stack.len() - 1].get_int());
            }
        }
        match status {
            Status::Running => {}
            Status::LoadClass(name) => {
                if load_class(&mut vm.loader, modules, &name, 64).is_err() {
                    return (Status::LoadClass(name), returned);
                }
            }
            Status::Float(request) => {
                assert!(matches!(thread.resume_float(compute(request)), Status::Running));
            }
            Status::Clock { nanos } => {
                let reading = if nanos { 99 } else { 1234 };
                let resumed = thread.resume_native(Some(NativeVariable::Long(reading)));
                assert!(matches!(resumed, Status::Running));
            }
            other => return (other, returned),
        }
    }
    panic!("the thread does not stop");
}

fn compute(request: FloatRequest) -> u64 {
    let a = f32::from_bits(request.first as u32);
    let b = f32::from_bits(request.second as u32);
    let x = f64::from_bits(request.first);
    let y = f64::from_bits(request.second);
    match request.op {
        0x62 => (a + b).to_bits() as u64,
        0x6e => (a / b).to_bits() as u64,
        0x6f => (x / y).to_bits(),
        0x87 => (request.first as u32 as i32 as f64).to_bits(),
        0x8b => (a as i32) as u32 as u64,
        0x8e => (x as i32) as u32 as u64,
        0x95 => match a.partial_cmp(&b) {
            Some(std::cmp::Ordering::Less) | None => (-1i32) as u32 as u64,
            Some(std::cmp::Ordering::Equal) => 0,
            Some(std::cmp::Ordering::Greater) => 1,
        },
        other => panic!("no float instruction {other}"),
    }
}

fn kind_of(status: &Status) -> Option<VmExceptionKind> {
    match status {
        Status::Uncaught(Exception::VmException { exception_type, .. }) => Some(*exception_type),
        _ => None,
    }
}

fn add_class() -> ClassFile {
    let mut file = ClassFile::new("Add", Some("java/lang/Object"), PUBLIC);
    file.method(PUBLIC | STATIC, "sum", "(II)I", &[0x1a, 0x1b, 0x60, 0xac]);
    let sum = file.method_ref("Add", "sum", "(II)I");
    file.method(
        PUBLIC | STATIC,
        "main",
        "()V",
        &[0x10, 10, 0x10, 20, 0xb8, hi(sum), lo(sum), 0x57, 0xb1],
    );
    file
}

#[test]
fn a_decoded_class_file_has_one_pool_entry_for_each_slot() {
    let file = add_class();
    let raw = class_file(&file.bytes()).unwrap();
    assert_eq!(raw.constant_pool.len(), file.slots as usize);
    assert_eq!(raw.major_version, 61);
    assert_eq!(raw.methods.len(), 2);
    let mut with_long = ClassFile::new("L", Some("java/lang/Object"), PUBLIC);
    let index = with_long.long(7);
    let raw = class_file(&with_long.bytes()).unwrap();
    assert_eq!(raw.constant_pool.len(), with_long.slots as usize);
    assert!(matches!(
        raw.constant_pool[(index - 1) as usize],
        jvm::class::structs::ConstantPoolInfo::Long(7)
    ));
    assert!(matches!(
        raw.constant_pool[index as usize],
        jvm::class::structs::ConstantPoolInfo::Empty
    ));
}

#[test]
fn a_file_without_the_magic_number_is_rejected_at_its_start() {
    let mut bytes = add_class().bytes();
    bytes[0] = 0;
    assert_eq!(class_file(&bytes).unwrap_err().offset, 0);
    assert_eq!(class_file(&[]).unwrap_err().offset, 0);
    let whole = add_class().bytes();
    assert!(class_file(&whole[..whole.len() - 1]).is_err());
    assert_eq!(class_file(&whole[..6]).unwrap_err().offset, 6);
}

#[test]
fn the_machine_starts_with_its_classes_and_natives() {
    let (vm, _) = machine(vec![]);
    assert!(vm.loader.find_class("java/lang/Object").is_some());
    assert!(vm.loader.find_class("[B").is_some());
    assert!(vm.loader.find_class("Add").is_none());
    assert_eq!(vm.natives.get("java/lang/Object.hashCode()").map(|e| *e), Some(1));
    assert_eq!(
        vm.natives.get("java/lang/Float.floatToRawIntBits(F)").map(|e| *e),
        Some(14)
    );
    assert!(vm.natives.get("java/lang/System.arraycopy(Ljava/lang/Object;ILjava/lang/Object;II)").is_none());
    assert_eq!(vm.next_thread_id, 1);
}

#[test]
fn a_class_that_no_module_has_is_not_found() {
    let (mut vm, modules) = machine(vec![]);
    assert!(matches!(
        load_class(&mut vm.loader, &modules, "Nowhere", 8),
        Err(LoadError::NotFound(name)) if name == "Nowhere"
    ));
    assert!(matches!(
        load_class(&mut vm.loader, &modules, "[[LNowhere;", 8),
        Err(LoadError::NotFound(_))
    ));
    let before = vm.loader.classes.len();
    let id = load_class(&mut vm.loader, &modules, "[[I", 8).unwrap();
    assert_eq!(vm.loader.classes[id].class_name, "[[I");
    assert!(vm.loader.classes.len() > before);
    assert_eq!(load_class(&mut vm.loader, &modules, "[[I", 0).unwrap(), id);
}

#[test]
fn arithmetic_main() {
    let (mut vm, modules) = machine(vec![add_class()]);
    let mut thread = start(&mut vm, &modules, "Add", "main");
    let (status, returned) = drive(&mut thread, &mut vm, &modules);
    assert!(matches!(status, Status::Done));
    assert_eq!(returned, vec![30]);
    assert!(thread.frames.is_empty());
}

fn hierarchy() -> Vec<ClassFile> {
    let mut a = plain("A", "java/lang/Object");
    a.field(0, "x", "I");
    a.field(STATIC, "count", "I");
    a.method(PUBLIC, "f", "()I", &[0x04, 0xac]);
    a.method(PUBLIC, "g", "()I", &[0x06, 0xac]);
    let mut b = plain("B", "A");
    b.field(0, "y", "J");
    b.field(0, "z", "I");
    b.method(PUBLIC, "f", "()I", &[0x05, 0xac]);
    let mut main = ClassFile::new("Virt", Some("java/lang/Object"), PUBLIC);
    let class_b = main.class("B");
    let init = main.method_ref("B", "<init>", "()V");
    let f = main.method_ref("A", "f", "()I");
    main.method(
        PUBLIC | STATIC,
        "run",
        "()I",
        &[
            0xbb, hi(class_b), lo(class_b), 0x59, 0xb7, hi(init), lo(init), 0x4b, 0x2a, 0xb6,
            hi(f), lo(f), 0xac,
        ],
    );
    let run = main.method_ref("Virt", "run", "()I");
    main.method(PUBLIC | STATIC, "main", "()V", &[0xb8, hi(run), lo(run), 0x57, 0xb1]);
    vec![a, b, main]
}

#[test]
fn virtual_dispatch() {
    let (mut vm, modules) = machine(hierarchy());
    let mut thread = start(&mut vm, &modules, "Virt", "main");
    let (status, returned) = drive(&mut thread, &mut vm, &modules);
    assert!(matches!(status, Status::Done));
    assert_eq!(returned, vec![2, 2]);
}

#[test]
fn a_class_has_the_fields_of_its_super_class_and_its_own() {
    let (mut vm, modules) = machine(hierarchy());
    let object = vm.loader.find_class("java/lang/Object").unwrap();
    let a = load_class(&mut vm.loader, &modules, "A", 8).unwrap();
    let b = load_class(&mut vm.loader, &modules, "B", 8).unwrap();
    let count = |id: usize| vm.loader.classes[id].instance_fields_info.len();
    assert_eq!(count(object), 0);
    assert_eq!(count(a), count(object) + 1);
    assert_eq!(count(b), count(a) + 2);
    let slots: Vec<usize> = vm.loader.classes[b].instance_fields_info.iter().map(|f| f.index).collect();
    assert_eq!(slots, vec![0, 1, 3]);
    assert_eq!(vm.loader.classes[a].static_fields.len(), 1);
    assert_eq!(vm.loader.classes[b].super_class, Some(a));
}

#[test]
fn the_vtable_of_a_class_extends_that_of_its_super_class() {
    let (mut vm, modules) = machine(hierarchy());
    let object = vm.loader.find_class("java/lang/Object").unwrap();
    let a = load_class(&mut vm.loader, &modules, "A", 8).unwrap();
    let b = load_class(&mut vm.loader, &modules, "B", 8).unwrap();
    let rows = |id: usize| vm.loader.classes[id].vtable.len();
    assert_eq!(rows(object), 2);
    assert_eq!(rows(a), 4);
    assert_eq!(rows(b), 4);
    assert!(rows(a) >= rows(object) && rows(b) >= rows(a));
    for row in 0..rows(a) {
        assert!(vm.loader.classes[a].vtable[row].name.same_str(&vm.loader.classes[b].vtable[row].name));
    }
}

fn catcher() -> ClassFile {
    let mut file = ClassFile::new("Catch", Some("java/lang/Object"), PUBLIC);
    let arithmetic = file.class("java/lang/ArithmeticException");
    file.method_with(
        PUBLIC | STATIC,
        "safe",
        "()I",
        Some(&[0x10, 10, 0x03, 0x6c, 0xac, 0x57, 0x02, 0xac]),
        &[(0, 4, 5, arithmetic)],
    );
    file.method_with(PUBLIC | STATIC | NATIVE, "println", "(I)V", None, &[]);
    let safe = file.method_ref("Catch", "safe", "()I");
    let println = file.method_ref("Catch", "println", "(I)V");
    file.method(
        PUBLIC | STATIC,
        "main",
        "()V",
        &[0xb8, hi(safe), lo(safe), 0xb8, hi(println), lo(println), 0xb1],
    );
    file.method_with(
        PUBLIC | STATIC,
        "other",
        "()I",
        Some(&[0x10, 10, 0x03, 0x6c, 0xac, 0x57, 0x02, 0xac]),
        &[(0, 3, 5, arithmetic)],
    );
    file
}

#[test]
fn exception_unwinding() {
    let (mut vm, modules) = machine(vec![catcher()]);
    register(&mut vm.natives, "Catch", "println", &vec![FieldType::Int], NATIVE_NOP);
    let mut thread = start(&mut vm, &modules, "Catch", "main");
    let (status, returned) = drive(&mut thread, &mut vm, &modules);
    assert!(matches!(status, Status::Done), "{status:?}");
    assert_eq!(returned, vec![-1]);
}

#[test]
fn a_handler_whose_range_ends_before_the_instruction_does_not_catch() {
    let (mut vm, modules) = machine(vec![catcher()]);
    let mut thread = start(&mut vm, &modules, "Catch", "other");
    let (status, _) = drive(&mut thread, &mut vm, &modules);
    assert_eq!(kind_of(&status), Some(VmExceptionKind::Arithmetic));
}

#[test]
fn a_native_that_is_not_registered_is_malformed() {
    let (mut vm, modules) = machine(vec![catcher()]);
    let mut thread = start(&mut vm, &modules, "Catch", "main");
    let (status, _) = drive(&mut thread, &mut vm, &modules);
    assert!(matches!(status, Status::Malformed));
}

fn bounds() -> ClassFile {
    let mut file = ClassFile::new("Bounds", Some("java/lang/Object"), PUBLIC);
    file.method(PUBLIC | STATIC, "main", "()V", &[0x06, 0xbc, 10, 0x06, 0x10, 7, 0x4f, 0xb1]);
    file.method(PUBLIC | STATIC, "fits", "()I", &[0x06, 0xbc, 10, 0x59, 0x05, 0x10, 7, 0x4f, 0x05, 0x2e, 0xac]);
    file.method(PUBLIC | STATIC, "negative", "()V", &[0x02, 0xbc, 10, 0x57, 0xb1]);
    file.method(PUBLIC | STATIC, "length", "()I", &[0x08, 0xbc, 11, 0xbe, 0xac]);
    file.method(PUBLIC | STATIC, "null", "()I", &[0x01, 0xbe, 0xac]);
    let fits = file.method_ref("Bounds", "fits", "()I");
    let length = file.method_ref("Bounds", "length", "()I");
    file.method(
        PUBLIC | STATIC,
        "both",
        "()V",
        &[0xb8, hi(fits), lo(fits), 0x57, 0xb8, hi(length), lo(length), 0x57, 0xb1],
    );
    file
}

#[test]
fn array_bounds() {
    let (mut vm, modules) = machine(vec![bounds()]);
    let mut thread = start(&mut vm, &modules, "Bounds", "main");
    let (status, _) = drive(&mut thread, &mut vm, &modules);
    assert_eq!(kind_of(&status), Some(VmExceptionKind::ArrayIndexOutOfBounds));
    assert_eq!(thread.frames.last().unwrap().stack.len(), 2);
    let trace = thread.frame_names(&vm.loader.classes);
    assert_eq!(trace, vec!["Bounds.main()V".to_string()]);
}

#[test]
fn an_element_in_bounds_is_written_and_read() {
    let (mut vm, modules) = machine(vec![bounds()]);
    let mut thread = start(&mut vm, &modules, "Bounds", "both");
    let (status, returned) = drive(&mut thread, &mut vm, &modules);
    assert!(matches!(status, Status::Done), "{status:?}");
    assert_eq!(returned, vec![7, 5]);
}

#[test]
fn an_array_of_negative_size_is_not_made() {
    let (mut vm, modules) = machine(vec![bounds()]);
    let objects = vm.heap.heap.len();
    let mut thread = start(&mut vm, &modules, "Bounds", "negative");
    let (status, _) = drive(&mut thread, &mut vm, &modules);
    assert_eq!(kind_of(&status), Some(VmExceptionKind::NegativeArraySize));
    assert_eq!(vm.heap.heap.len(), objects);
    assert_eq!(thread.frames.last().unwrap().stack.len(), 2);
    assert_eq!(thread.pc, 1);
}

#[test]
fn the_length_of_null_raises() {
    let (mut vm, modules) = machine(vec![bounds()]);
    let mut thread = start(&mut vm, &modules, "Bounds", "null");
    let (status, _) = drive(&mut thread, &mut vm, &modules);
    assert_eq!(kind_of(&status), Some(VmExceptionKind::NullPointer));
}

fn interning() -> ClassFile {
    let mut file = ClassFile::new("Intern", Some("java/lang/Object"), PUBLIC);
    let first = file.string("hello");
    let second = file.string("hello");
    let other = file.string("world");
    file.method(PUBLIC | STATIC, "one", "()I", &[0x12, lo(first), 0xac]);
    file.method(PUBLIC | STATIC, "two", "()I", &[0x13, hi(second), lo(second), 0xac]);
    file.method(PUBLIC | STATIC, "three", "()I", &[0x12, lo(other), 0xac]);
    let one = file.method_ref("Intern", "one", "()I");
    let two = file.method_ref("Intern", "two", "()I");
    let three = file.method_ref("Intern", "three", "()I");
    file.method(
        PUBLIC | STATIC,
        "main",
        "()V",
        &[
            0xb8, hi(one), lo(one), 0x57, 0xb8, hi(two), lo(two), 0x57, 0xb8, hi(three),
            lo(three), 0x57, 0xb1,
        ],
    );
    file
}

#[test]
fn interning_gives_one_reference_for_one_literal() {
    let (mut vm, modules) = machine(vec![interning()]);
    let mut thread = start(&mut vm, &modules, "Intern", "main");
    let (status, returned) = drive(&mut thread, &mut vm, &modules);
    assert!(matches!(status, Status::Done), "{status:?}");
    assert_eq!(returned.len(), 3);
    assert_eq!(returned[0], returned[1]);
    assert_ne!(returned[0], returned[2]);
    assert_ne!(returned[0], 0);
    let bytes = vm.heap.get_u8_array(returned[0] as u32 - 1).unwrap();
    assert_eq!(bytes, &b"hello".to_vec());
}

fn cloning() -> Vec<ClassFile> {
    let mut yes = plain("Yes", "java/lang/Object");
    yes.interface("java/lang/Cloneable");
    yes.field(0, "x", "I");
    let mut no = plain("No", "java/lang/Object");
    no.field(0, "x", "I");
    let mut main = ClassFile::new("Copy", Some("java/lang/Object"), PUBLIC);
    for (method, name) in [("yes", "Yes"), ("no", "No")] {
        let class = main.class(name);
        let init = main.method_ref(name, "<init>", "()V");
        let x = main.field_ref(name, "x", "I");
        let clone = main.method_ref(name, "clone", "()Ljava/lang/Object;");
        main.method(
            PUBLIC | STATIC,
            method,
            "()I",
            &[
                0xbb, hi(class), lo(class), 0x59, 0xb7, hi(init), lo(init), 0x59, 0x08, 0xb5,
                hi(x), lo(x), 0xb6, hi(clone), lo(clone), 0xac,
            ],
        );
    }
    let yes_ref = main.method_ref("Copy", "yes", "()I");
    main.method(PUBLIC | STATIC, "main", "()V", &[0xb8, hi(yes_ref), lo(yes_ref), 0x57, 0xb1]);
    let no_ref = main.method_ref("Copy", "no", "()I");
    main.method(PUBLIC | STATIC, "fails", "()V", &[0xb8, hi(no_ref), lo(no_ref), 0x57, 0xb1]);
    vec![yes, no, main]
}

#[test]
fn clone_semantics() {
    let (mut vm, modules) = machine(cloning());
    let mut thread = start(&mut vm, &modules, "Copy", "main");
    let (status, returned) = drive(&mut thread, &mut vm, &modules);
    assert!(matches!(status, Status::Done), "{status:?}");
    assert_eq!(returned.len(), 2);
    assert_eq!(returned[0], returned[1]);
    let copy = returned[0] as u32;
    let yes = vm.loader.find_class("Yes").unwrap();
    let of_class: Vec<u32> = (1..=vm.heap.heap.len() as u32)
        .filter(|id| vm.heap.get_ordinary(*id).map(|o| o.class) == Some(yes))
        .collect();
    assert_eq!(of_class.len(), 2);
    assert!(of_class.contains(&copy));
    let original = if of_class[0] == copy { of_class[1] } else { of_class[0] };
    assert_ne!(copy, original);
    assert_eq!(vm.heap.get_field(copy, 0).unwrap().get_int(), 5);
    assert_eq!(vm.heap.get_field(original, 0).unwrap().get_int(), 5);
    assert_eq!(
        vm.heap.get_ordinary(copy).unwrap().class,
        vm.heap.get_ordinary(original).unwrap().class
    );
    vm.heap.put_field(copy, 0, Variable::from_int(6)).unwrap();
    assert_eq!(vm.heap.get_field(original, 0).unwrap().get_int(), 5);
}

#[test]
fn a_class_that_is_not_cloneable_is_not_cloned() {
    let (mut vm, modules) = machine(cloning());
    let mut thread = start(&mut vm, &modules, "Copy", "fails");
    let (status, _) = drive(&mut thread, &mut vm, &modules);
    assert_eq!(kind_of(&status), Some(VmExceptionKind::CloneNotSupported));
}

fn counting() -> Vec<ClassFile> {
    let mut counter = ClassFile::new("Counter", Some("java/lang/Object"), PUBLIC);
    counter.field(STATIC, "runs", "I");
    let runs = counter.field_ref("Counter", "runs", "I");
    counter.method(
        STATIC,
        "<clinit>",
        "()V",
        &[0xb2, hi(runs), lo(runs), 0x04, 0x60, 0xb3, hi(runs), lo(runs), 0xb1],
    );
    counter.method(PUBLIC | STATIC, "get", "()I", &[0xb2, hi(runs), lo(runs), 0xac]);
    let mut main = ClassFile::new("Twice", Some("java/lang/Object"), PUBLIC);
    let get = main.method_ref("Counter", "get", "()I");
    let field = main.field_ref("Counter", "runs", "I");
    main.method(
        PUBLIC | STATIC,
        "main",
        "()V",
        &[
            0xb8, hi(get), lo(get), 0x57, 0xb8, hi(get), lo(get), 0x57, 0xb2, hi(field),
            lo(field), 0x57, 0xb1,
        ],
    );
    vec![counter, main]
}

#[test]
fn the_initializer_of_a_class_runs_once() {
    let (mut vm, modules) = machine(counting());
    let mut thread = start(&mut vm, &modules, "Twice", "main");
    let (status, returned) = drive(&mut thread, &mut vm, &modules);
    assert!(matches!(status, Status::Done), "{status:?}");
    assert_eq!(returned, vec![1, 1]);
    let counter = vm.loader.find_class("Counter").unwrap();
    assert_eq!(vm.loader.classes[counter].clinit_call, ClinitStatus::Init);
    assert_eq!(vm.loader.classes[counter].static_fields[0].get_int(), 1);
    let mut second = start(&mut vm, &modules, "Twice", "main");
    assert_eq!(second.thread_id, thread.thread_id + 1);
    let (status, returned) = drive(&mut second, &mut vm, &modules);
    assert!(matches!(status, Status::Done));
    assert_eq!(returned, vec![1, 1]);
}

#[test]
fn a_class_that_another_thread_initializes_blocks() {
    let (mut vm, modules) = machine(counting());
    let counter = load_class(&mut vm.loader, &modules, "Counter", 8).unwrap();
    assert_eq!(vm.loader.classes[counter].clinit_call, ClinitStatus::NotInit);
    let runs = vm.loader.initialize_class(counter, 77).unwrap();
    assert_eq!(runs.len(), 1);
    assert_eq!(runs[0].0, counter);
    assert_eq!(vm.loader.classes[counter].clinit_call, ClinitStatus::Initializing { thread: 77 });
    let mut thread = start(&mut vm, &modules, "Twice", "main");
    let (status, _) = drive(&mut thread, &mut vm, &modules);
    assert!(matches!(status, Status::Blocked), "{status:?}");
    vm.loader.finish_initialization(counter, false);
    let (status, _) = drive(&mut thread, &mut vm, &modules);
    assert_eq!(kind_of(&status), Some(VmExceptionKind::ExceptionInInitializer));
}

fn references(vm: &mut Vm, class: usize, elements: &[u32]) -> u32 {
    let id = vm.heap.allocate_bytes(elements.len(), 4, class).unwrap();
    for (i, element) in elements.iter().enumerate() {
        vm.heap.put_array_index_raw(id, i, &element.to_le_bytes().to_vec()).unwrap();
    }
    id
}

fn elements(vm: &Vm, id: u32) -> Vec<u32> {
    let count = vm.heap.get_array_size(id, 4).unwrap();
    (0..count).map(|i| vm.heap.get_array_index(id, i, 4).unwrap() as u32).collect()
}

fn copy_arguments(src: u32, from: i32, dest: u32, to: i32, length: i32) -> Vec<NativeVariable> {
    vec![
        NativeVariable::Reference(src),
        NativeVariable::Int(from),
        NativeVariable::Reference(dest),
        NativeVariable::Int(to),
        NativeVariable::Int(length),
    ]
}

#[test]
fn an_array_copy_stops_at_the_first_element_that_does_not_fit() {
    let (mut vm, modules) = machine(hierarchy());
    let a = load_class(&mut vm.loader, &modules, "A", 8).unwrap();
    let object = vm.loader.find_class("java/lang/Object").unwrap();
    let objects = load_class(&mut vm.loader, &modules, "[Ljava/lang/Object;", 8).unwrap();
    let as_ = load_class(&mut vm.loader, &modules, "[LA;", 8).unwrap();
    let first = vm.heap.allocate_object(a, vec![Variable::from_int(0)]).unwrap();
    let second = vm.heap.allocate_object(a, vec![Variable::from_int(0)]).unwrap();
    let wrong = vm.heap.allocate_object(object, vec![]).unwrap();
    let src = references(&mut vm, objects, &[first, 0, wrong, second]);
    let dest = references(&mut vm, as_, &[0, 0, 0, 0, 0]);
    let outcome = native_system_arraycopy(&copy_arguments(src, 0, dest, 1, 4), &mut vm);
    assert_eq!(outcome, NativeOutcome::Throw(VmExceptionKind::ArrayStore));
    assert_eq!(elements(&vm, dest), vec![0, first, 0, 0, 0]);
    let outcome = native_system_arraycopy(&copy_arguments(src, 0, dest, 3, 2), &mut vm);
    assert_eq!(outcome, NativeOutcome::Value(None));
    assert_eq!(elements(&vm, dest), vec![0, first, 0, first, 0]);
    let outcome = native_system_arraycopy(&copy_arguments(dest, 0, src, 0, 4), &mut vm);
    assert_eq!(outcome, NativeOutcome::Value(None));
    assert_eq!(elements(&vm, src), vec![0, first, 0, first]);
}

#[test]
fn an_array_copy_checks_its_arguments() {
    let (mut vm, modules) = machine(vec![]);
    let ints = load_class(&mut vm.loader, &modules, "[I", 8).unwrap();
    let longs = load_class(&mut vm.loader, &modules, "[J", 8).unwrap();
    let object = vm.loader.find_class("java/lang/Object").unwrap();
    let src = vm.heap.allocate_bytes(4, 4, ints).unwrap();
    for i in 0..4 {
        vm.heap.put_array_index_raw(src, i, &(i as u32 + 1).to_le_bytes().to_vec()).unwrap();
    }
    let dest = vm.heap.allocate_bytes(4, 4, ints).unwrap();
    let other = vm.heap.allocate_bytes(4, 8, longs).unwrap();
    let plain = vm.heap.allocate_object(object, vec![]).unwrap();
    let throws = |kind| NativeOutcome::Throw(kind);
    assert_eq!(
        native_system_arraycopy(&copy_arguments(0, 0, dest, 0, 1), &mut vm),
        throws(VmExceptionKind::NullPointer)
    );
    assert_eq!(
        native_system_arraycopy(&copy_arguments(src, 0, plain, 0, 1), &mut vm),
        throws(VmExceptionKind::ArrayStore)
    );
    assert_eq!(
        native_system_arraycopy(&copy_arguments(src, 0, other, 0, 1), &mut vm),
        throws(VmExceptionKind::ArrayStore)
    );
    for (from, to, length) in [(-1, 0, 1), (0, -1, 1), (0, 0, -1), (2, 0, 3), (0, 2, 3), (0, 0, 5)] {
        assert_eq!(
            native_system_arraycopy(&copy_arguments(src, from, dest, to, length), &mut vm),
            throws(VmExceptionKind::IndexOutOfBounds)
        );
    }
    assert_eq!(elements(&vm, dest), vec![0, 0, 0, 0]);
    assert_eq!(
        native_system_arraycopy(&vec![NativeVariable::Int(1)], &mut vm),
        NativeOutcome::Malformed
    );
    assert_eq!(
        native_system_arraycopy(&copy_arguments(src, 1, dest, 0, 3), &mut vm),
        NativeOutcome::Value(None)
    );
    assert_eq!(elements(&vm, dest), vec![2, 3, 4, 0]);
    assert_eq!(
        native_system_arraycopy(&copy_arguments(src, 0, src, 1, 3), &mut vm),
        NativeOutcome::Value(None)
    );
    assert_eq!(elements(&vm, src), vec![1, 1, 2, 3]);
    assert_eq!(
        native_system_arraycopy(&copy_arguments(src, 4, dest, 4, 0), &mut vm),
        NativeOutcome::Value(None)
    );
}

fn run_static(extra: Vec<ClassFile>, class: &str, method: &str) -> (Status, Vec<i32>, Vm) {
    let (mut vm, modules) = machine(extra);
    let mut thread = start(&mut vm, &modules, class, method);
    let (status, returned) = drive(&mut thread, &mut vm, &modules);
    (status, returned, vm)
}

fn fields() -> Vec<ClassFile> {
    let mut point = plain("Point", "java/lang/Object");
    point.field(0, "x", "I");
    point.field(0, "w", "J");
    let mut main = ClassFile::new("Fields", Some("java/lang/Object"), PUBLIC);
    let class = main.class("Point");
    let init = main.method_ref("Point", "<init>", "()V");
    let x = main.field_ref("Point", "x", "I");
    let w = main.field_ref("Point", "w", "J");
    let absent = main.field_ref("Point", "absent", "I");
    let seven = main.long(-7);
    main.method(
        PUBLIC | STATIC,
        "x",
        "()I",
        &[
            0xbb, hi(class), lo(class), 0x59, 0xb7, hi(init), lo(init), 0x59, 0x10, 42, 0xb5,
            hi(x), lo(x), 0xb4, hi(x), lo(x), 0xac,
        ],
    );
    main.method(
        PUBLIC | STATIC,
        "w",
        "()I",
        &[
            0xbb, hi(class), lo(class), 0x59, 0xb7, hi(init), lo(init), 0x59, 0x14, hi(seven),
            lo(seven), 0xb5, hi(w), lo(w), 0xb4, hi(w), lo(w), 0x88, 0xac,
        ],
    );
    main.method(PUBLIC | STATIC, "null", "()I", &[0x01, 0xb4, hi(x), lo(x), 0xac]);
    main.method(
        PUBLIC | STATIC,
        "absent",
        "()I",
        &[0xbb, hi(class), lo(class), 0xb4, hi(absent), lo(absent), 0xac],
    );
    for name in ["x", "w"] {
        let target = main.method_ref("Fields", name, "()I");
        main.method(
            PUBLIC | STATIC,
            &format!("call_{name}"),
            "()V",
            &[0xb8, hi(target), lo(target), 0x57, 0xb1],
        );
    }
    vec![point, main]
}

#[test]
fn a_field_that_is_written_reads_back() {
    let (status, returned, _) = run_static(fields(), "Fields", "call_x");
    assert!(matches!(status, Status::Done), "{status:?}");
    assert_eq!(returned, vec![42]);
    let (status, returned, _) = run_static(fields(), "Fields", "call_w");
    assert!(matches!(status, Status::Done), "{status:?}");
    assert_eq!(returned, vec![-7]);
}

#[test]
fn a_field_of_null_raises() {
    let (status, _, _) = run_static(fields(), "Fields", "null");
    assert_eq!(kind_of(&status), Some(VmExceptionKind::NullPointer));
}

#[test]
fn a_field_that_the_class_does_not_have_raises() {
    let (status, _, _) = run_static(fields(), "Fields", "absent");
    assert_eq!(kind_of(&status), Some(VmExceptionKind::NoSuchField));
}

fn casts() -> Vec<ClassFile> {
    let mut files = hierarchy();
    let mut main = ClassFile::new("Casts", Some("java/lang/Object"), PUBLIC);
    let a = main.class("A");
    let b = main.class("B");
    let init_a = main.method_ref("A", "<init>", "()V");
    let make_a = [0xbb, hi(a), lo(a), 0x59, 0xb7, hi(init_a), lo(init_a)];
    let mut down = make_a.to_vec();
    down.extend_from_slice(&[0xc0, hi(b), lo(b), 0x57, 0x03, 0xac]);
    main.method(PUBLIC | STATIC, "down", "()I", &down);
    let mut up = make_a.to_vec();
    up.extend_from_slice(&[0xc0, hi(a), lo(a), 0xc1, hi(a), lo(a), 0xac]);
    main.method(PUBLIC | STATIC, "up", "()I", &up);
    let mut is_b = make_a.to_vec();
    is_b.extend_from_slice(&[0xc1, hi(b), lo(b), 0xac]);
    main.method(PUBLIC | STATIC, "is_b", "()I", &is_b);
    main.method(PUBLIC | STATIC, "null", "()I", &[0x01, 0xc0, hi(b), lo(b), 0xc1, hi(b), lo(b), 0xac]);
    for name in ["up", "is_b", "null"] {
        let target = main.method_ref("Casts", name, "()I");
        main.method(
            PUBLIC | STATIC,
            &format!("call_{name}"),
            "()V",
            &[0xb8, hi(target), lo(target), 0x57, 0xb1],
        );
    }
    files.push(main);
    files
}

#[test]
fn a_cast_to_a_class_that_the_object_is_not_raises() {
    let (status, _, _) = run_static(casts(), "Casts", "down");
    assert_eq!(kind_of(&status), Some(VmExceptionKind::ClassCast));
}

#[test]
fn instance_tests_follow_the_hierarchy() {
    assert_eq!(run_static(casts(), "Casts", "call_up").1, vec![1]);
    assert_eq!(run_static(casts(), "Casts", "call_is_b").1, vec![0]);
    assert_eq!(run_static(casts(), "Casts", "call_null").1, vec![0]);
}

fn monitors() -> ClassFile {
    let mut main = ClassFile::new("Locks", Some("java/lang/Object"), PUBLIC);
    let object = main.class("java/lang/Object");
    let make = [0xbb, hi(object), lo(object)];
    let mut both = make.to_vec();
    both.extend_from_slice(&[0x59, 0x59, 0xc2, 0xc3, 0x57, 0xb1]);
    main.method(PUBLIC | STATIC, "both", "()V", &both);
    let mut leave = make.to_vec();
    leave.extend_from_slice(&[0xc3, 0xb1]);
    main.method(PUBLIC | STATIC, "leave", "()V", &leave);
    main.method(PUBLIC | STATIC, "null", "()V", &[0x01, 0xc2, 0xb1]);
    main
}

#[test]
fn a_monitor_is_entered_and_left() {
    let (status, _, vm) = run_static(vec![monitors()], "Locks", "both");
    assert!(matches!(status, Status::Done), "{status:?}");
    let monitor = vm.heap.get_monitor(1).unwrap();
    assert_eq!(monitor.count, 0);
}

#[test]
fn a_monitor_that_is_not_held_is_not_left() {
    let (status, _, _) = run_static(vec![monitors()], "Locks", "leave");
    assert_eq!(kind_of(&status), Some(VmExceptionKind::IllegalMonitorState));
    let (status, _, _) = run_static(vec![monitors()], "Locks", "null");
    assert_eq!(kind_of(&status), Some(VmExceptionKind::NullPointer));
}

fn interfaces() -> Vec<ClassFile> {
    let mut shape = ClassFile::new("Shape", Some("java/lang/Object"), PUBLIC | INTERFACE);
    shape.method_with(PUBLIC | 0x0400, "sides", "()I", None, &[]);
    let mut square = plain("Square", "java/lang/Object");
    square.interface("Shape");
    square.method(PUBLIC, "sides", "()I", &[0x07, 0xac]);
    let mut main = ClassFile::new("Shapes", Some("java/lang/Object"), PUBLIC);
    let class = main.class("Square");
    let init = main.method_ref("Square", "<init>", "()V");
    let sides = main.interface_method_ref("Shape", "sides", "()I");
    main.method(
        PUBLIC | STATIC,
        "sides",
        "()I",
        &[
            0xbb, hi(class), lo(class), 0x59, 0xb7, hi(init), lo(init), 0xb9, hi(sides),
            lo(sides), 1, 0, 0xac,
        ],
    );
    main.method(PUBLIC | STATIC, "null", "()I", &[0x01, 0xb9, hi(sides), lo(sides), 1, 0, 0xac]);
    let target = main.method_ref("Shapes", "sides", "()I");
    main.method(PUBLIC | STATIC, "main", "()V", &[0xb8, hi(target), lo(target), 0x57, 0xb1]);
    vec![shape, square, main]
}

#[test]
fn a_call_through_an_interface_reaches_the_class() {
    let (status, returned, _) = run_static(interfaces(), "Shapes", "main");
    assert!(matches!(status, Status::Done), "{status:?}");
    assert_eq!(returned, vec![4, 4]);
    let (status, _, _) = run_static(interfaces(), "Shapes", "null");
    assert_eq!(kind_of(&status), Some(VmExceptionKind::NullPointer));
}

fn nested() -> ClassFile {
    let mut main = ClassFile::new("Nested", Some("java/lang/Object"), PUBLIC);
    let grid = main.class("[[I");
    main.method(
        PUBLIC | STATIC,
        "inner",
        "()I",
        &[0x05, 0x06, 0xc5, hi(grid), lo(grid), 2, 0x04, 0x32, 0xbe, 0xac],
    );
    main.method(
        PUBLIC | STATIC,
        "outer",
        "()I",
        &[0x05, 0x06, 0xc5, hi(grid), lo(grid), 2, 0xbe, 0xac],
    );
    main.method(
        PUBLIC | STATIC,
        "open",
        "()I",
        &[0x08, 0xc5, hi(grid), lo(grid), 1, 0x03, 0x32, 0xac],
    );
    main.method(
        PUBLIC | STATIC,
        "negative",
        "()I",
        &[0x05, 0x02, 0xc5, hi(grid), lo(grid), 2, 0xbe, 0xac],
    );
    for name in ["inner", "outer", "open"] {
        let target = main.method_ref("Nested", name, "()I");
        main.method(
            PUBLIC | STATIC,
            &format!("call_{name}"),
            "()V",
            &[0xb8, hi(target), lo(target), 0x57, 0xb1],
        );
    }
    main
}

#[test]
fn an_array_of_arrays_is_made_level_by_level() {
    let (status, returned, vm) = run_static(vec![nested()], "Nested", "call_inner");
    assert!(matches!(status, Status::Done), "{status:?}");
    assert_eq!(returned, vec![3]);
    assert_eq!(vm.heap.heap.len(), 3);
    let outer = (1..=3u32).find(|id| vm.heap.get_array_size(*id, 4) == Some(2)).unwrap();
    let first = vm.heap.get_array_index(outer, 0, 4).unwrap() as u32;
    let second = vm.heap.get_array_index(outer, 1, 4).unwrap() as u32;
    assert_ne!(first, second);
    assert_eq!(vm.heap.get_array_size(first, 4), Some(3));
    assert_eq!(vm.heap.get_array_size(second, 4), Some(3));
    assert_eq!(run_static(vec![nested()], "Nested", "call_outer").1, vec![2]);
    assert_eq!(run_static(vec![nested()], "Nested", "call_open").1, vec![0]);
    let (status, _, vm) = run_static(vec![nested()], "Nested", "negative");
    assert_eq!(kind_of(&status), Some(VmExceptionKind::NegativeArraySize));
    assert_eq!(vm.heap.heap.len(), 0);
}

fn deep() -> ClassFile {
    let mut main = ClassFile::new("Deep", Some("java/lang/Object"), PUBLIC);
    let down = main.method_ref("Deep", "down", "()V");
    main.method(PUBLIC | STATIC, "down", "()V", &[0xb8, hi(down), lo(down), 0xb1]);
    let missing = main.method_ref("Deep", "missing", "()V");
    main.method(PUBLIC | STATIC, "call", "()V", &[0xb8, hi(missing), lo(missing), 0xb1]);
    let class = main.class("Nowhere");
    main.method(PUBLIC | STATIC, "make", "()V", &[0xbb, hi(class), lo(class), 0xb1]);
    let error = main.class("java/lang/RuntimeException");
    let init = main.method_ref("java/lang/RuntimeException", "<init>", "()V");
    let throwable = main.class("java/lang/Throwable");
    let throws = [0xbb, hi(error), lo(error), 0x59, 0xb7, hi(init), lo(init), 0xbf];
    main.method(PUBLIC | STATIC, "throws", "()V", &throws);
    let mut caught = throws.to_vec();
    caught.extend_from_slice(&[0x57, 0x10, 9, 0xac]);
    main.method_with(PUBLIC | STATIC, "caught", "()I", Some(&caught), &[(0, 8, 8, throwable)]);
    let mut any = throws.to_vec();
    any.extend_from_slice(&[0x57, 0x10, 8, 0xac]);
    main.method_with(PUBLIC | STATIC, "any", "()I", Some(&any), &[(0, 8, 8, 0)]);
    let thrower = main.method_ref("Deep", "throws", "()V");
    main.method_with(
        PUBLIC | STATIC,
        "outer",
        "()I",
        Some(&[0xb8, hi(thrower), lo(thrower), 0x03, 0xac, 0x57, 0x10, 7, 0xac]),
        &[(0, 4, 5, error)],
    );
    for name in ["caught", "any", "outer"] {
        let target = main.method_ref("Deep", name, "()I");
        main.method(
            PUBLIC | STATIC,
            &format!("call_{name}"),
            "()V",
            &[0xb8, hi(target), lo(target), 0x57, 0xb1],
        );
    }
    main
}

#[test]
fn a_thread_has_no_more_frames_than_it_may() {
    let (mut vm, modules) = machine(vec![deep()]);
    let mut thread = start(&mut vm, &modules, "Deep", "down");
    let (status, _) = drive(&mut thread, &mut vm, &modules);
    assert_eq!(kind_of(&status), Some(VmExceptionKind::StackOverflow));
    assert_eq!(thread.frames.len(), 64);
    assert_eq!(thread.frame_names(&vm.loader.classes).len(), 64);
}

#[test]
fn a_method_that_the_class_does_not_have_raises() {
    let (status, _, _) = run_static(vec![deep()], "Deep", "call");
    assert_eq!(kind_of(&status), Some(VmExceptionKind::NoSuchMethod));
}

#[test]
fn a_class_that_is_missing_has_to_be_loaded() {
    let (status, _, _) = run_static(vec![deep()], "Deep", "make");
    assert!(matches!(status, Status::LoadClass(name) if name == "Nowhere"));
}

#[test]
fn a_thrown_object_is_caught_by_the_class_of_the_handler() {
    let (status, _, vm) = run_static(vec![deep()], "Deep", "throws");
    match status {
        Status::Uncaught(Exception::UserException(object)) => {
            let class = vm.heap.get_ordinary(object).unwrap().class;
            assert_eq!(vm.loader.classes[class].class_name, "java/lang/RuntimeException");
        }
        other => panic!("{other:?}"),
    }
    assert_eq!(run_static(vec![deep()], "Deep", "call_caught").1, vec![9]);
    assert_eq!(run_static(vec![deep()], "Deep", "call_any").1, vec![8]);
    assert_eq!(run_static(vec![deep()], "Deep", "call_outer").1.last(), Some(&7));
}

fn floats() -> ClassFile {
    let mut main = ClassFile::new("Floats", Some("java/lang/Object"), PUBLIC);
    main.method(PUBLIC | STATIC, "sum", "()I", &[0x0c, 0x0d, 0x62, 0x8b, 0xac]);
    main.method(PUBLIC | STATIC, "infinite", "()I", &[0x0c, 0x0b, 0x6e, 0x8b, 0xac]);
    main.method(PUBLIC | STATIC, "nan", "()I", &[0x0b, 0x0b, 0x6e, 0x0b, 0x95, 0xac]);
    main.method(PUBLIC | STATIC, "double", "()I", &[0x0f, 0x0e, 0x6f, 0x8e, 0xac]);
    main.method_with(PUBLIC | STATIC | NATIVE, "now", "()J", None, &[]);
    let now = main.method_ref("Floats", "now", "()J");
    main.method(PUBLIC | STATIC, "time", "()I", &[0xb8, hi(now), lo(now), 0x88, 0xac]);
    for name in ["sum", "infinite", "nan", "double", "time"] {
        let target = main.method_ref("Floats", name, "()I");
        main.method(
            PUBLIC | STATIC,
            &format!("call_{name}"),
            "()V",
            &[0xb8, hi(target), lo(target), 0x57, 0xb1],
        );
    }
    main
}

#[test]
fn floating_point_results_come_from_outside() {
    assert_eq!(run_static(vec![floats()], "Floats", "call_sum").1, vec![3]);
    assert_eq!(run_static(vec![floats()], "Floats", "call_infinite").1, vec![i32::MAX]);
    assert_eq!(run_static(vec![floats()], "Floats", "call_nan").1, vec![-1]);
    assert_eq!(run_static(vec![floats()], "Floats", "call_double").1, vec![i32::MAX]);
}

#[test]
fn the_operands_of_a_float_instruction_are_handed_out_as_bits() {
    let code = vec![0x6e];
    let mut stack = vec![
        Variable::from_return_address(0),
        Variable::from_return_address(0),
        Variable::from_float_bits(1.0f32.to_bits()),
        Variable::from_float_bits(0.0f32.to_bits()),
    ];
    let request = float_operands(&code, 0, &stack).unwrap();
    assert_eq!(request, FloatRequest { op: 0x6e, first: 0x3f80_0000, second: 0 });
    assert!(float_operands(&code, 1, &stack).is_none());
    assert!(float_operands(&vec![0x60], 0, &stack).is_none());
    assert!(float_operands(&code, 0, &stack[..3].to_vec()).is_none());
    let mut pc = 0;
    let infinity = f32::INFINITY.to_bits() as u64;
    assert_eq!(apply_float_result(&code, &mut pc, &mut stack, infinity), Outcome::Step);
    assert_eq!(pc, 1);
    assert_eq!(stack.len(), 3);
    assert_eq!(stack[2].get_float(), 0x7f80_0000);
    let mut doubles = stack[..2].to_vec();
    for bits in [1.0f64.to_bits(), 0.0f64.to_bits()] {
        let (upper, lower) = Variable::put_double(bits);
        doubles.push(upper);
        doubles.push(lower);
    }
    let request = float_operands(&vec![0x6f], 0, &doubles).unwrap();
    assert_eq!(request, FloatRequest { op: 0x6f, first: 1.0f64.to_bits(), second: 0 });
    let mut pc = 0;
    let result = f64::NEG_INFINITY.to_bits();
    assert_eq!(apply_float_result(&vec![0x6f], &mut pc, &mut doubles, result), Outcome::Step);
    assert_eq!(doubles.len(), 4);
    assert_eq!(Variable::get_double(doubles[2], doubles[3]), result);
    assert_eq!(apply_float_result(&vec![0x6f], &mut pc, &mut doubles, 0), Outcome::Malformed);
}

#[test]
fn the_clock_is_read_outside() {
    let (mut vm, modules) = machine(vec![floats()]);
    register(&mut vm.natives, "Floats", "now", &vec![], SYSTEM_CURRENT_TIME_MILLIS);
    let mut thread = start(&mut vm, &modules, "Floats", "call_time");
    let (status, returned) = drive(&mut thread, &mut vm, &modules);
    assert!(matches!(status, Status::Done), "{status:?}");
    assert_eq!(returned, vec![1234, 1234]);
}

#[test]
fn natives_are_registered_when_the_class_asks_for_it() {
    let (mut vm, _) = machine(vec![]);
    let copy = "java/lang/System.arraycopy(Ljava/lang/Object;ILjava/lang/Object;II)";
    assert!(vm.natives.get(copy).is_none());
    assert_eq!(call_native(SYSTEM_REGISTER_NATIVES, &vec![], &mut vm), NativeOutcome::Value(None));
    assert_eq!(vm.natives.get(copy).map(|e| *e), Some(4));
    assert_eq!(vm.natives.get("java/lang/System.nanoTime()").map(|e| *e), Some(6));
    assert_eq!(
        vm.natives.get("java/lang/System.identityHashCode(Ljava/lang/Object;)").map(|e| *e),
        Some(1)
    );
    assert_eq!(call_native(CLASS_REGISTER_NATIVES, &vec![], &mut vm), NativeOutcome::Value(None));
    assert_eq!(
        vm.natives.get("java/lang/Class.getPrimitiveClass(Ljava/lang/String;)").map(|e| *e),
        Some(11)
    );
    assert_eq!(call_native(6, &vec![], &mut vm), NativeOutcome::Clock { nanos: true });
    assert_eq!(
        call_native(7, &vec![], &mut vm),
        NativeOutcome::Value(Some(NativeVariable::Boolean(false)))
    );
    assert_eq!(
        call_native(10, &vec![], &mut vm),
        NativeOutcome::Value(Some(NativeVariable::Boolean(true)))
    );
    assert_eq!(
        call_native(17, &vec![], &mut vm),
        NativeOutcome::Value(Some(NativeVariable::Long(0)))
    );
    assert_eq!(call_native(1000, &vec![], &mut vm), NativeOutcome::Malformed);
}

#[test]
fn the_name_of_a_class_is_interned_with_dots() {
    let (mut vm, _) = machine(vec![]);
    let string = vm.loader.find_class("java/lang/String").unwrap();
    let mirror = vm.heap.get_class_object(string, &mut vm.class_table).unwrap();
    let outcome = call_native(9, &vec![NativeVariable::Reference(mirror)], &mut vm);
    let NativeOutcome::Value(Some(NativeVariable::Reference(name))) = outcome else {
        panic!("{outcome:?}");
    };
    assert_eq!(vm.heap.get_u8_array(name - 1).unwrap(), &b"java.lang.String".to_vec());
    assert_eq!(
        vm.heap.load_field(mirror, vm.special_fields.class_name, &vm.special_fields).unwrap().get_reference(),
        name
    );
    let again = call_native(9, &vec![NativeVariable::Reference(mirror)], &mut vm);
    assert_eq!(again, NativeOutcome::Value(Some(NativeVariable::Reference(name))));
    assert_eq!(call_native(9, &vec![NativeVariable::Reference(name)], &mut vm), NativeOutcome::Malformed);
}

#[test]
fn a_primitive_class_is_found_by_its_name() {
    let (mut vm, _) = machine(vec![]);
    let name = vm.heap.intern_string(b"int".to_vec(), false, &mut vm.string_table).unwrap();
    let argument = vec![NativeVariable::Reference(name)];
    assert_eq!(call_native(11, &argument, &mut vm), NativeOutcome::Malformed);
    let int = vm.loader.define_array("int".to_string(), None).unwrap();
    let outcome = call_native(11, &argument, &mut vm);
    let NativeOutcome::Value(Some(NativeVariable::Reference(mirror))) = outcome else {
        panic!("{outcome:?}");
    };
    assert_eq!(vm.class_table.get(int), Some(mirror));
    assert_eq!(call_native(11, &argument, &mut vm), outcome);
    let other = vm.heap.intern_string(b"integer".to_vec(), false, &mut vm.string_table).unwrap();
    assert_eq!(
        call_native(11, &vec![NativeVariable::Reference(other)], &mut vm),
        NativeOutcome::Malformed
    );
}

#[test]
fn a_class_file_that_names_no_class_is_not_defined() {
    let (mut vm, _) = machine(vec![]);
    let mut file = ClassFile::new("Bad", Some("java/lang/Object"), PUBLIC);
    file.this = 1;
    let raw = class_file(&file.bytes()).unwrap();
    let before = vm.loader.classes.len();
    assert!(matches!(
        vm.loader.define_class(&raw),
        Err(DefineError::Link(LinkError::BadConstant { .. }))
    ));
    assert_eq!(vm.loader.classes.len(), before);
    let orphan = ClassFile::new("Orphan", Some("Nowhere"), PUBLIC);
    let raw = class_file(&orphan.bytes()).unwrap();
    assert!(matches!(
        vm.loader.define_class(&raw),
        Err(DefineError::Missing(name)) if name == "Nowhere"
    ));
    let fine = class_file(&add_class().bytes()).unwrap();
    let id = vm.loader.define_class(&fine).unwrap();
    assert_eq!(id, before);
    assert_eq!(vm.loader.define_class(&fine).unwrap(), id);
    assert_eq!(vm.loader.classes.len(), before + 1);
    assert_eq!(vm.loader.find_class("Add"), Some(id));
}

fn described() -> ClassFile {
    let mut file = ClassFile::new("Described", Some("java/lang/Object"), PUBLIC);
    let seventy_seven = file.integer(77);
    file.constant_field(PUBLIC | STATIC | 0x0010, "K", "I", seventy_seven);
    file.field(STATIC, "plain", "J");
    let source = file.utf8("Described.java");
    let attribute = file.attribute("SourceFile", &source.to_be_bytes());
    file.attributes.push(attribute);
    let unknown = file.attribute("Mystery", &[1, 2, 3]);
    file.attributes.push(unknown);
    let deprecated = file.attribute("Deprecated", &[]);
    file.attributes.push(deprecated);
    let k = file.field_ref("Described", "K", "I");
    file.method(PUBLIC | STATIC, "k", "()I", &[0xb2, hi(k), lo(k), 0xac]);
    let target = file.method_ref("Described", "k", "()I");
    file.method(PUBLIC | STATIC, "main", "()V", &[0xb8, hi(target), lo(target), 0x57, 0xb1]);
    file
}

#[test]
fn the_attributes_of_a_class_are_read() {
    let raw = class_file(&described().bytes()).unwrap();
    assert_eq!(raw.attributes.len(), 3);
    assert_eq!(raw.attributes[1].info, vec![1, 2, 3]);
    let class = jvm::runtime::class_loader::parse_class(&raw).unwrap();
    assert_eq!(class.class_name, "Described");
    assert_eq!(class.attributes.len(), 3);
    assert!(matches!(&class.attributes[0], AttributeInfo::SourceFile(name) if name.as_bytes() == b"Described.java"));
    assert!(matches!(&class.attributes[1], AttributeInfo::Unknown(name) if name.as_bytes() == b"Mystery"));
    assert!(matches!(class.attributes[2], AttributeInfo::Deprecated));
    assert_eq!(class.static_fields_info.len(), 2);
    assert_eq!(class.static_fields.len(), 3);
    assert_eq!(class.static_fields[0].get_int(), 77);
    assert_eq!(class.static_fields_info[1].index, 1);
    assert_eq!(class.methods.len(), 2);
    match &class.methods[0].attributes[0] {
        AttributeInfo::Code(code) => {
            assert_eq!(code.code, vec![0xb2, 0, 20, 0xac]);
            assert_eq!((code.max_stack, code.max_locals), (8, 8));
            assert!(code.exception_table.is_empty());
        }
        other => panic!("{other:?}"),
    }
}

#[test]
fn a_constant_field_starts_with_its_value() {
    let (status, returned, _) = run_static(vec![described()], "Described", "main");
    assert!(matches!(status, Status::Done), "{status:?}");
    assert_eq!(returned, vec![77]);
}

#[test]
fn an_attribute_that_runs_over_its_length_is_rejected() {
    let mut file = ClassFile::new("Short", Some("java/lang/Object"), PUBLIC);
    let attribute = file.attribute("SourceFile", &[0]);
    file.attributes.push(attribute);
    let raw = class_file(&file.bytes()).unwrap();
    assert!(matches!(
        jvm::runtime::class_loader::parse_class(&raw),
        Err(LinkError::BadAttribute { .. })
    ));
    let mut file = ClassFile::new("Wrong", Some("java/lang/Object"), PUBLIC);
    let text = file.utf8("text");
    file.constant_field(STATIC, "K", "I", text);
    let raw = class_file(&file.bytes()).unwrap();
    assert!(jvm::runtime::class_loader::parse_class(&raw).is_err());
}

struct Liar {
    inner: Memory,
}

impl ModuleLoader for Liar {
    fn packages(&self) -> Vec<String> {
        self.inner.packages()
    }

    fn name(&self) -> String {
        "liar".to_string()
    }

    fn get_class_file(&self, class_name: &str) -> Option<RawClass> {
        if class_name == "Wanted.class" {
            return self.inner.get_class_file("Add.class");
        }
        self.inner.get_class_file(class_name)
    }
}

#[test]
fn loading_fails_where_the_module_fails() {
    let mut memory = library();
    memory.files.insert("Add".to_string(), add_class().bytes());
    let mut broken = ClassFile::new("Broken", Some("java/lang/Object"), PUBLIC);
    broken.this = 1;
    memory.files.insert("Broken".to_string(), broken.bytes());
    memory.files.insert(
        "Orphan".to_string(),
        ClassFile::new("Orphan", Some("Nowhere"), PUBLIC).bytes(),
    );
    let modules = vec![Liar { inner: memory }];
    let mut vm = genesis(&modules, true, false, 64).unwrap();
    assert!(matches!(
        load_class(&mut vm.loader, &modules, "Wanted", 8),
        Err(LoadError::WrongClass(name)) if name == "Wanted"
    ));
    assert!(matches!(
        load_class(&mut vm.loader, &modules, "Broken", 8),
        Err(LoadError::Define(DefineError::Link(LinkError::BadConstant { .. })))
    ));
    assert!(matches!(
        load_class(&mut vm.loader, &modules, "Orphan", 8),
        Err(LoadError::NotFound(name)) if name == "Nowhere"
    ));
    assert!(matches!(load_class(&mut vm.loader, &modules, "Intern", 0), Err(LoadError::OutOfFuel)));
    assert!(matches!(
        load_class(&mut vm.loader, &modules, "[Q", 8),
        Err(LoadError::Define(DefineError::BadName))
    ));
    let object = vm.loader.find_class("java/lang/Object").unwrap();
    assert_eq!(load_class(&mut vm.loader, &modules, "java/lang/Object", 0).unwrap(), object);
}

#[test]
fn the_machine_is_not_made_without_its_classes() {
    let empty = vec![Memory { files: HashMap::new() }];
    assert!(matches!(
        genesis(&empty, true, false, 64),
        Err(GenesisError::Load(LoadError::NotFound(name))) if name == "java/lang/Object"
    ));
    let full = vec![library()];
    assert!(matches!(genesis(&full, true, false, 0), Err(GenesisError::OutOfFuel)));
    let vm = genesis(&full, false, true, 64).unwrap();
    assert!(!vm.compact_strings);
    assert!(vm.big_endian);
    assert_eq!(vm.loader.modules, 1);
    assert!(vm.heap.heap.is_empty());
}

#[test]
fn a_frame_takes_its_arguments_from_the_caller() {
    let (mut vm, modules) = machine(vec![add_class(), interfaces().remove(0)]);
    let add = load_class(&mut vm.loader, &modules, "Add", 8).unwrap();
    let shape = load_class(&mut vm.loader, &modules, "Shape", 8).unwrap();
    let sum = &vm.loader.classes[add].methods[0];
    let mut caller = vec![
        Variable::from_return_address(0),
        Variable::from_return_address(0),
        Variable::from_int(5),
        Variable::from_int(10),
        Variable::from_int(20),
    ];
    let frame = Frame::new(&mut caller, add, sum, 0x1_0000_0007, false).unwrap();
    assert_eq!(caller.len(), 3);
    assert_eq!(frame.locals.len(), 2);
    assert_eq!((frame.locals[0].get_int(), frame.locals[1].get_int()), (10, 20));
    assert_eq!(frame.stack.len(), 2);
    assert_eq!((frame.stack[0].get_return_address(), frame.stack[1].get_return_address()), (1, 7));
    assert_eq!(frame.code, vec![0x1a, 0x1b, 0x60, 0xac]);
    assert!(frame.is_static);
    assert_eq!(frame.class, add);
    let mut few = caller[..3].to_vec();
    assert!(matches!(
        Frame::new(&mut few, add, sum, 0, false),
        Err(FrameError::MissingArguments)
    ));
    assert_eq!(few.len(), 3);
    let mut with_this = caller.clone();
    with_this.push(Variable::from_int(1));
    with_this.push(Variable::from_int(2));
    let bound = Frame::new(&mut with_this, add, sum, 0, true).unwrap();
    assert_eq!(bound.locals.len(), 3);
    assert!(!bound.is_static);
    let sides = &vm.loader.classes[shape].methods[0];
    assert!(matches!(Frame::new(&mut caller, shape, sides, 0, false), Err(FrameError::NoCode)));
    let clone = &vm.loader.classes[0].methods[2];
    let native = Frame::without_arguments(0, clone, 9).unwrap();
    assert_eq!(native.code, vec![0xfe, 0xb0]);
    assert!(Frame::without_arguments(shape, sides, 0).is_none());
}

fn stores() -> Vec<ClassFile> {
    let mut files = hierarchy();
    let mut main = ClassFile::new("Stores", Some("java/lang/Object"), PUBLIC);
    let a = main.class("A");
    let object = main.class("java/lang/Object");
    let bad = main.class("[Q");
    main.method(
        PUBLIC | STATIC,
        "wrong",
        "()V",
        &[0x04, 0xbd, hi(a), lo(a), 0x03, 0xbb, hi(object), lo(object), 0x53, 0xb1],
    );
    main.method(
        PUBLIC | STATIC,
        "right",
        "()V",
        &[0x04, 0xbd, hi(a), lo(a), 0x59, 0x03, 0xbb, hi(a), lo(a), 0x53, 0x03, 0x01, 0x53, 0xb1],
    );
    main.method(PUBLIC | STATIC, "bad", "()V", &[0xbb, hi(bad), lo(bad), 0xb1]);
    main.method(PUBLIC | STATIC, "negative", "()V", &[0x02, 0xbd, hi(a), lo(a), 0x57, 0xb1]);
    files.push(main);
    files
}

#[test]
fn a_reference_array_holds_only_what_fits_its_class() {
    let (status, _, _) = run_static(stores(), "Stores", "wrong");
    assert_eq!(kind_of(&status), Some(VmExceptionKind::ArrayStore));
    let (status, _, vm) = run_static(stores(), "Stores", "right");
    assert!(matches!(status, Status::Done), "{status:?}");
    let array = (1..=vm.heap.heap.len() as u32).find(|id| vm.heap.get_array_size(*id, 4) == Some(1)).unwrap();
    assert_eq!(vm.heap.get_array_index(array, 0, 4), Some(0));
    let (status, _, _) = run_static(stores(), "Stores", "bad");
    assert_eq!(kind_of(&status), Some(VmExceptionKind::NoClassDefFound));
}

#[test]
fn a_failure_names_the_first_class_that_the_machine_lacks() {
    let mut empty = BootstrapClassLoader::new();
    assert!(matches!(
        init_famous_classes(&mut empty),
        Err(DefineError::Missing(name)) if name == "java/lang/Object"
    ));
    assert!(empty.classes.is_empty());
    assert!(matches!(
        Vm::new(empty, true, false),
        Err((_, DefineError::Missing(name))) if name == "java/lang/Object"
    ));
    let mut loader = BootstrapClassLoader::new();
    for name in ["java/lang/Object", "java/lang/String", "java/lang/Class"] {
        let raw = library().get_class_file(&format!("{name}.class")).unwrap();
        loader.define_class(&raw).unwrap();
    }
    assert!(matches!(
        init_famous_classes(&mut loader),
        Err(DefineError::Missing(name)) if name == "java/lang/Cloneable"
    ));
    assert_eq!(loader.classes.len(), 3);
    let modules = vec![library()];
    assert!(matches!(genesis(&modules, true, false, 0), Err(GenesisError::OutOfFuel)));
    let vm = genesis(&modules, true, false, 27).unwrap();
    assert_eq!(vm.heap.next_id, 0);
    assert!(vm.loader.find_class("java/lang/StackOverflowError").is_some());
}

#[test]
fn a_negative_size_is_taken_from_the_stack() {
    let mut files = stores();
    files.push(nested());
    let (mut vm, modules) = machine(files);
    let mut thread = start(&mut vm, &modules, "Nested", "negative");
    let (status, _) = drive(&mut thread, &mut vm, &modules);
    assert_eq!(kind_of(&status), Some(VmExceptionKind::NegativeArraySize));
    let stack = &thread.frames.last().unwrap().stack;
    assert_eq!(stack.len(), 3);
    assert_eq!(stack[2].get_int(), 2);
    let mut thread = start(&mut vm, &modules, "Stores", "negative");
    let (status, _) = drive(&mut thread, &mut vm, &modules);
    assert_eq!(kind_of(&status), Some(VmExceptionKind::NegativeArraySize));
    assert_eq!(thread.frames.last().unwrap().stack.len(), 2);
}

#[test]
fn an_inherited_field_keeps_its_attributes() {
    let mut a = plain("Base", "java/lang/Object");
    let nine = a.integer(9);
    a.constant_field(0x0010, "x", "I", nine);
    let mut b = plain("Derived", "Base");
    b.field(0, "y", "I");
    let (mut vm, modules) = machine(vec![a, b]);
    let base = load_class(&mut vm.loader, &modules, "Base", 8).unwrap();
    let derived = load_class(&mut vm.loader, &modules, "Derived", 8).unwrap();
    let own = &vm.loader.classes[base].instance_fields_info;
    let inherited = &vm.loader.classes[derived].instance_fields_info;
    assert_eq!(own.len(), 1);
    assert_eq!(inherited.len(), 2);
    assert_eq!(own[0].attributes.len(), 1);
    assert_eq!(inherited[0].attributes.len(), 1);
    assert!(matches!(
        &inherited[0].attributes[0],
        AttributeInfo::ConstantValue(jvm::runtime::structs::attributes::Const::Int(9))
    ));
    assert!(inherited[0].name.same_str(&own[0].name));
    assert_eq!(inherited[0].index, own[0].index);
    assert_eq!(inherited[1].index, 1);
    assert!(inherited[1].attributes.is_empty());
}

#[test]
fn an_array_class_needs_no_fuel_where_its_elements_are_defined() {
    let (mut vm, modules) = machine(vec![add_class()]);
    let before = vm.loader.classes.len();
    let longs = load_class(&mut vm.loader, &modules, "[[J", 0).unwrap();
    assert_eq!(vm.loader.classes[longs].class_name, "[[J");
    assert_eq!(vm.loader.classes.len(), before + 2);
    assert!(matches!(
        load_class(&mut vm.loader, &modules, "[LAdd;", 0),
        Err(LoadError::OutOfFuel)
    ));
    assert!(matches!(load_class(&mut vm.loader, &modules, "Add", 0), Err(LoadError::OutOfFuel)));
    assert_eq!(vm.loader.classes.len(), before + 2);
    let adds = load_class(&mut vm.loader, &modules, "[LAdd;", 2).unwrap();
    assert_eq!(vm.loader.classes[adds].class_name, "[LAdd;");
    assert!(matches!(
        load_class(&mut vm.loader, &modules, "other/Thing", 4),
        Err(LoadError::NotFound(name)) if name == "other/Thing"
    ));
}

#[test]
fn a_class_file_is_taken_for_the_class_that_was_asked_for() {
    let (mut vm, _) = machine(vec![]);
    let before = vm.loader.classes.len();
    let add = class_file(&add_class().bytes()).unwrap();
    assert!(matches!(
        define_loaded(&mut vm.loader, &add, "Other"),
        Err(LoadError::WrongClass(name)) if name == "Other"
    ));
    assert_eq!(vm.loader.classes.len(), before + 1);
    assert_eq!(define_loaded(&mut vm.loader, &add, "Add").unwrap(), before);
    assert_eq!(vm.loader.classes.len(), before + 1);
    let orphan = class_file(&ClassFile::new("Orphan", Some("Nowhere"), PUBLIC).bytes()).unwrap();
    assert!(matches!(
        define_loaded(&mut vm.loader, &orphan, "Orphan"),
        Err(LoadError::Define(DefineError::Missing(name))) if name == "Nowhere"
    ));
    assert_eq!(vm.loader.classes.len(), before + 1);
}

#[test]
fn an_interned_string_has_a_special_identifier() {
    let (status, returned, vm) = run_static(vec![interning()], "Intern", "main");
    assert!(matches!(status, Status::Done));
    for id in returned {
        assert!(id as u32 > jvm::runtime::heap::MAX_OBJECT_ID);
        assert!(vm.heap.get_special(id as u32).is_some());
        assert!(vm.heap.get_special(id as u32 - 1).is_some());
    }
    assert_eq!(vm.string_table.keys.len(), 2);
}
