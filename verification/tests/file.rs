use tftpff::error::TftpError;
use tftpff::file::File;
use tftpff::packet::Mode;

fn read_all(content: &[u8], mode: Mode, chunk: usize) -> Vec<Vec<u8>> {
    let mut file = File::new(mode);
    let mut at = 0;
    let mut blocks = Vec::new();
    while file.has_next() {
        while file.needs_input() {
            let end = std::cmp::min(content.len(), at + chunk);
            file.read_data_from_inner(&content[at..end]);
            at = end;
        }
        blocks.push(file.next_block().unwrap());
    }
    assert_eq!(file.next_block(), None);
    blocks
}

fn do_test_read(content: &[u8], expected: &[u8], mode: Mode) {
    let mut my_file = File::new(mode);
    my_file.read_data_from_inner(content);
    my_file.read_data_from_inner(&[]);
    let block = my_file.next_block().unwrap();
    assert_eq!(&block[..], expected);
}

#[test]
fn test_read_with_netascii() {
    do_test_read(b"a\ra\na", b"a\r\0a\r\na", Mode::NETASCII);
}

#[test]
fn test_read_with_octet() {
    do_test_read(b"a\ra\na", b"a\ra\na", Mode::OCTET);
}

#[test]
fn test_read_512_multiple_bytes() {
    let data = [vec![b'a'; 1022], vec![b'\n']].concat();

    let mut my_file = File::new(Mode::NETASCII);
    assert!(my_file.has_next());
    assert!(my_file.needs_input());
    assert_eq!(my_file.read_data_from_inner(&data[..512]), 512);
    assert_eq!(my_file.next_block().unwrap().len(), 512);
    assert!(my_file.has_next());
    assert_eq!(my_file.read_data_from_inner(&data[512..]), 512);
    assert_eq!(my_file.next_block().unwrap().len(), 512);
    assert!(my_file.has_next());
    assert_eq!(my_file.next_block(), None);
    assert_eq!(my_file.read_data_from_inner(&[]), 0);
    assert_eq!(my_file.next_block().unwrap().len(), 0);
    assert!(!my_file.has_next());
    assert_eq!(my_file.next_block(), None);
}

fn do_test_write(content: &[u8], expected: &[u8], mode: Mode) {
    let mut my_file = File::new(mode);
    let mut stored = my_file.write(content).unwrap();
    stored.extend(my_file.flush());
    assert_eq!(&stored[..], expected);
}

#[test]
fn test_write_with_netascii() {
    do_test_write(b"a\r\0a\r\na", b"a\ra\na", Mode::NETASCII);
}

#[test]
fn test_write_with_octet() {
    do_test_write(b"a\r\0a\r\na", b"a\r\0a\r\na", Mode::OCTET);
}

#[test]
fn test_write_with_newlines() {
    let mut my_file = File::new(Mode::NETASCII);
    let my_bufs = [
        [[b'a'; 511].to_vec(), [b'\r'].to_vec()].concat(),
        [[b'\0'].to_vec(), [b'a'; 510].to_vec(), [b'\r'].to_vec()].concat(),
        [b'\n'].to_vec(),
    ];
    let mut stored: Vec<u8> = Vec::new();
    for buf in my_bufs.iter() {
        stored.extend(my_file.write(buf).unwrap());
    }
    stored.extend(my_file.flush());
    assert_eq!(stored.len(), 512 + 511);
    assert_eq!(stored[511], b'\r');
    assert_eq!(stored[1022], b'\n');
}

#[test]
fn test_write_holds_back_cr() {
    let mut file = File::new(Mode::NETASCII);
    assert_eq!(file.write(b"ab\r"), Ok(b"ab".to_vec()));
    assert_eq!(file.write(b"\ncd"), Ok(b"\ncd".to_vec()));
    assert_eq!(file.flush(), Vec::<u8>::new());
    assert_eq!(file.write(b"x\r"), Ok(b"x".to_vec()));
    assert_eq!(file.flush(), vec![b'\r']);
    assert_eq!(file.flush(), Vec::<u8>::new());
}

#[test]
fn test_write_illegal_netascii() {
    let mut file = File::new(Mode::NETASCII);
    assert_eq!(file.write(b"a\rb"), Err(TftpError::IllegalTftpOp));
    // nothing changed: the adapter still decodes from a clean state
    assert_eq!(file.write(b"\nz"), Ok(b"\nz".to_vec()));
    let mut octet = File::new(Mode::OCTET);
    assert_eq!(octet.write(b"a\rb"), Ok(b"a\rb".to_vec()));
    assert_eq!(octet.flush(), Vec::<u8>::new());
}

#[test]
fn test_block_count_is_size_over_512_plus_one() {
    for n in [0usize, 1, 511, 512, 513, 1023, 1024, 1025, 5000] {
        let content = vec![b'a'; n];
        for chunk in [1usize, 100, 512, 700] {
            let blocks = read_all(&content, Mode::OCTET, chunk);
            assert_eq!(blocks.len(), n / 512 + 1);
            for b in &blocks[..blocks.len() - 1] {
                assert_eq!(b.len(), 512);
            }
            assert_eq!(blocks[blocks.len() - 1].len(), n % 512);
            assert_eq!(blocks.concat(), content);
        }
    }
}

#[test]
fn test_empty_file_is_one_empty_block() {
    let blocks = read_all(b"", Mode::OCTET, 512);
    assert_eq!(blocks, vec![Vec::<u8>::new()]);
    let blocks = read_all(b"", Mode::NETASCII, 512);
    assert_eq!(blocks, vec![Vec::<u8>::new()]);
}

#[test]
fn test_512_byte_file_is_two_blocks() {
    let blocks = read_all(&[b'q'; 512], Mode::OCTET, 512);
    assert_eq!(blocks.len(), 2);
    assert_eq!(blocks[0], vec![b'q'; 512]);
    assert_eq!(blocks[1].len(), 0);
}

#[test]
fn test_513_byte_file_is_two_blocks() {
    let blocks = read_all(&[b'q'; 513], Mode::OCTET, 512);
    assert_eq!(blocks.len(), 2);
    assert_eq!(blocks[0].len(), 512);
    assert_eq!(blocks[1], vec![b'q'; 1]);
}

#[test]
fn test_cr_at_block_boundary_is_carried() {
    // the CR is byte 512 of the first block; the NUL that resolves it opens
    // the second
    let content = [vec![b'a'; 511], vec![b'\r'], vec![b'b'; 3]].concat();
    let blocks = read_all(&content, Mode::NETASCII, 512);
    assert_eq!(blocks.len(), 2);
    assert_eq!(blocks[0].len(), 512);
    assert_eq!(blocks[0][511], b'\r');
    assert_eq!(blocks[1], vec![0u8, b'b', b'b', b'b']);

    let mut sink = File::new(Mode::NETASCII);
    let first = sink.write(&blocks[0]).unwrap();
    assert_eq!(first, vec![b'a'; 511]);
    let second = sink.write(&blocks[1]).unwrap();
    assert_eq!(second, b"\rbbb".to_vec());
    assert_eq!(sink.flush(), Vec::<u8>::new());
    assert_eq!([first, second].concat(), content);
}

#[test]
fn test_netascii_stream_grows_the_block_count() {
    // 512 line feeds become 1024 bytes on the wire: three blocks
    let content = vec![b'\n'; 512];
    let blocks = read_all(&content, Mode::NETASCII, 512);
    assert_eq!(blocks.len(), 3);
    assert_eq!(blocks[0].len(), 512);
    assert_eq!(blocks[1].len(), 512);
    assert_eq!(blocks[2].len(), 0);
    let mut file = File::new(Mode::NETASCII);
    assert_eq!(file.read_data_from_inner(&content), 1024);
    assert_eq!(file.mode(), Mode::NETASCII);
}

#[test]
fn test_send_then_receive_is_identity() {
    let content: Vec<u8> = (0..3000u32).map(|i| [b'\r', b'\n', b'x', 0u8][(i % 4) as usize]).collect();
    for mode in [Mode::NETASCII, Mode::OCTET] {
        let blocks = read_all(&content, mode, 300);
        let mut sink = File::new(mode);
        let mut stored: Vec<u8> = Vec::new();
        for b in blocks.iter() {
            stored.extend(sink.write(b).unwrap());
        }
        stored.extend(sink.flush());
        assert_eq!(stored, content);
    }
}
