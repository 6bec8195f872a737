use oprs::mocks::fs::File;

#[test]
fn test_file_open() {
    assert!(File::open("content:ok").is_ok());
    assert!(File::open("nok").is_err());
}

#[test]
fn test_read_small() {
    let mut buf: [u8; 10] = [0; 10];
    let mut file = File::open("content:ok").unwrap();
    let mut nread = file.read(&mut buf).unwrap();
    assert_eq!(2, nread);
    assert_eq!([b'o', b'k'], buf[0..2]);
    nread = file.read(&mut buf).unwrap();
    assert_eq!(0, nread);
}

#[test]
fn test_read_equal() {
    let mut buf: [u8; 5] = [0; 5];
    let mut file = File::open("content:seven").unwrap();
    let mut nread = file.read(&mut buf).unwrap();
    assert_eq!(5, nread);
    assert_eq!([b's', b'e', b'v', b'e', b'n'], buf);
    nread = file.read(&mut buf).unwrap();
    assert_eq!(0, nread);
}

#[test]
fn test_read_big() {
    let mut buf: [u8; 2] = [0; 2];
    let mut file = File::open("content:one").unwrap();
    let mut nread = file.read(&mut buf).unwrap();
    assert_eq!(2, nread);
    assert_eq!([b'o', b'n'], buf);
    nread = file.read(&mut buf).unwrap();
    assert_eq!(1, nread);
    assert_eq!([b'e', b'n'], buf);
    nread = file.read(&mut buf).unwrap();
    assert_eq!(0, nread);
}

#[test]
fn read_multibyte_content_by_bytes() {
    let mut buf: [u8; 3] = [0; 3];
    let mut file = File::open("content:é!").unwrap();
    assert_eq!(3, file.read(&mut buf).unwrap());
    assert_eq!([0xc3, 0xa9, b'!'], buf);
    assert_eq!(0, file.read(&mut buf).unwrap());
}
