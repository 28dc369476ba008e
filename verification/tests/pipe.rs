use blocking::pipe::{pipe, Pipe};
use blocking::poll::Poll;
use blocking::ring::{Gate, CHUNK_MAX, ZERO_STEP};
use std::sync::{Arc, Mutex};
use std::task::{Wake, Waker};

struct Bell(Mutex<usize>);

impl Wake for Bell {
    fn wake(self: Arc<Self>) {
        *self.0.lock().unwrap() += 1;
    }
}

fn bell() -> (Arc<Bell>, Waker) {
    let bell = Arc::new(Bell(Mutex::new(0)));
    (bell.clone(), Waker::from(bell))
}

fn rung(bell: &Arc<Bell>) -> usize {
    *bell.0.lock().unwrap()
}

fn pattern(len: usize, seed: u64) -> Vec<u8> {
    let mut state: u64 = seed;
    let mut bytes: Vec<u8> = Vec::with_capacity(len);
    for _ in 0..len {
        state = state.wrapping_mul(6364136223846793005).wrapping_add(1442695040888963407);
        bytes.push(state.to_le_bytes()[4]);
    }
    bytes
}

/// Pushes `input` through a pipe of `cap` bytes, the writer offering
/// `offer` bytes at a time and the reader making room for `room`.
fn through(cap: usize, input: &[u8], offer: usize, room: usize) -> Vec<u8> {
    let (_, waker) = bell();
    let mut ring: Pipe = pipe(cap);
    let mut output: Vec<u8> = Vec::new();
    let mut sent: usize = 0;
    let mut buf: Vec<u8> = vec![0; room];
    while output.len() < input.len() {
        if sent < input.len() {
            let upto: usize = usize::min(input.len(), sent + offer);
            match ring.poll_write(&waker, &input[sent..upto]) {
                Poll::Ready(n) => sent += n,
                Poll::Pending => assert!(ring.is_full()),
            }
        }
        match ring.poll_read(&waker, &mut buf) {
            Poll::Ready(n) => output.extend_from_slice(&buf[..n]),
            Poll::Pending => assert!(ring.is_empty()),
        }
        assert!(ring.len() <= cap);
    }
    assert!(ring.is_empty());
    output
}

#[test]
fn bytes_come_out_as_they_went_in_cap_1() {
    let input = pattern(1000, 1);
    assert_eq!(through(1, &input, 3, 2), input);
}

#[test]
fn bytes_come_out_as_they_went_in_cap_7() {
    let input = pattern(10_000, 7);
    assert_eq!(through(7, &input, 5, 3), input);
    assert_eq!(through(7, &input, 100, 100), input);
}

#[test]
fn bytes_come_out_as_they_went_in_cap_8() {
    let input = pattern(10_000, 8);
    assert_eq!(through(8, &input, 8, 8), input);
    assert_eq!(through(8, &input, 3, 11), input);
}

#[test]
fn bytes_come_out_as_they_went_in_cap_4096() {
    let input = pattern(100_000, 4096);
    assert_eq!(through(4096, &input, 5000, 1234), input);
    assert_eq!(through(4096, &input, 777, 9000), input);
}

#[test]
fn bytes_come_out_as_they_went_in_cap_8_mib() {
    let cap: usize = 8 * 1024 * 1024;
    let input = pattern(3 * cap + 12345, 42);
    assert_eq!(through(cap, &input, cap + 1000, cap / 3), input);
}

#[test]
fn an_empty_input_goes_through() {
    assert_eq!(through(8, &[], 4, 4), Vec::<u8>::new());
}

#[test]
fn a_new_pipe_is_empty_and_open() {
    let ring = pipe(7);
    assert_eq!(ring.capacity(), 7);
    assert_eq!(ring.len(), 0);
    assert!(ring.is_empty());
    assert!(!ring.is_full());
    assert!(!ring.is_closed());
}

#[test]
fn full_is_not_empty() {
    let (_, waker) = bell();
    for cap in [1usize, 7, 8, 4096] {
        let input = pattern(cap + 5, 3);
        let mut ring = pipe(cap);
        assert_eq!(ring.poll_write(&waker, &input), Poll::Ready(cap));
        assert_eq!(ring.len(), cap);
        assert!(ring.is_full());
        assert!(!ring.is_empty());
        assert_eq!(ring.poll_write(&waker, &input[cap..]), Poll::Pending);
        let mut buf: Vec<u8> = vec![0; cap + 5];
        assert_eq!(ring.poll_read(&waker, &mut buf), Poll::Ready(cap));
        assert_eq!(&buf[..cap], &input[..cap]);
        assert!(ring.is_empty());
        assert!(!ring.is_full());
        assert_eq!(ring.poll_read(&waker, &mut buf), Poll::Pending);
    }
}

#[test]
fn full_again_after_the_indices_have_gone_round() {
    let (_, waker) = bell();
    let cap: usize = 5;
    let mut ring = pipe(cap);
    let mut buf: Vec<u8> = vec![0; cap];
    let mut next: u8 = 0;
    for round in 0..7usize {
        let input: Vec<u8> = (0..cap).map(|_| { next = next.wrapping_add(1); next }).collect();
        assert_eq!(ring.poll_write(&waker, &input), Poll::Ready(cap), "round {}", round);
        assert!(ring.is_full());
        assert_eq!(ring.poll_write(&waker, &[9]), Poll::Pending);
        assert_eq!(ring.poll_read(&waker, &mut buf), Poll::Ready(cap));
        assert_eq!(buf, input);
        assert!(ring.is_empty());
    }
}

#[test]
fn a_reader_with_no_room_gets_nothing() {
    let (_, waker) = bell();
    let mut ring = pipe(8);
    assert_eq!(ring.poll_write(&waker, &[1, 2, 3]), Poll::Ready(3));
    let mut none: [u8; 0] = [];
    assert_eq!(ring.poll_read(&waker, &mut none), Poll::Ready(0));
    assert_eq!(ring.len(), 3);
}

#[test]
fn a_writer_with_nothing_to_offer_puts_nothing_in() {
    let (_, waker) = bell();
    let mut ring = pipe(8);
    assert_eq!(ring.poll_write(&waker, &[]), Poll::Ready(0));
    assert!(ring.is_empty());
}

#[test]
fn read_leaves_the_rest_of_the_buffer_alone() {
    let (_, waker) = bell();
    let mut ring = pipe(8);
    assert_eq!(ring.poll_write(&waker, &[1, 2, 3]), Poll::Ready(3));
    let mut buf: [u8; 5] = [9; 5];
    assert_eq!(ring.poll_read(&waker, &mut buf), Poll::Ready(3));
    assert_eq!(buf, [1, 2, 3, 9, 9]);
}

#[test]
fn the_reader_trusts_what_it_saw_before_it_looks_again() {
    let (_, waker) = bell();
    let mut ring = pipe(16);
    assert_eq!(ring.poll_write(&waker, &[1, 2, 3, 4]), Poll::Ready(4));
    let mut two: [u8; 2] = [0; 2];
    assert_eq!(ring.poll_read(&waker, &mut two), Poll::Ready(2));
    assert_eq!(ring.poll_write(&waker, &[5, 6, 7]), Poll::Ready(3));
    assert_eq!(ring.len(), 5);
    // The reader saw four bytes and has taken two: it takes the other two
    // before it finds out about the three that came later.
    let mut buf: [u8; 8] = [0; 8];
    assert_eq!(ring.poll_read(&waker, &mut buf), Poll::Ready(2));
    assert_eq!(&buf[..2], &[3, 4]);
    assert_eq!(ring.poll_read(&waker, &mut buf), Poll::Ready(3));
    assert_eq!(&buf[..3], &[5, 6, 7]);
}

#[test]
fn the_writer_trusts_what_it_saw_before_it_looks_again() {
    let (_, waker) = bell();
    let mut ring = pipe(4);
    assert_eq!(ring.poll_write(&waker, &[1, 2, 3]), Poll::Ready(3));
    let mut buf: [u8; 4] = [0; 4];
    assert_eq!(ring.poll_read(&waker, &mut buf), Poll::Ready(3));
    // The writer knows of one free byte and has not seen the reader move.
    assert_eq!(ring.poll_write(&waker, &[4, 5, 6]), Poll::Ready(1));
    assert_eq!(ring.poll_write(&waker, &[5, 6, 7, 8, 9]), Poll::Ready(3));
    assert!(ring.is_full());
    assert_eq!(ring.poll_read(&waker, &mut buf), Poll::Ready(4));
    assert_eq!(buf, [4, 5, 6, 7]);
}

#[test]
fn a_waiting_reader_is_woken_by_the_next_byte() {
    let (reader_bell, reader) = bell();
    let (writer_bell, writer) = bell();
    let mut ring = pipe(8);
    let mut buf: [u8; 4] = [0; 4];
    assert_eq!(ring.poll_read(&reader, &mut buf), Poll::Pending);
    assert_eq!(rung(&reader_bell), 0);
    // Polling again before anything was written waits again.
    assert_eq!(ring.poll_read(&reader, &mut buf), Poll::Pending);
    assert_eq!(rung(&reader_bell), 0);
    assert_eq!(ring.poll_write(&writer, &[7]), Poll::Ready(1));
    assert_eq!(rung(&reader_bell), 1);
    assert_eq!(rung(&writer_bell), 0);
    assert_eq!(ring.poll_read(&reader, &mut buf), Poll::Ready(1));
    assert_eq!(buf[0], 7);
    // The waker was taken out of its slot: more bytes ring no bell.
    assert_eq!(ring.poll_write(&writer, &[8]), Poll::Ready(1));
    assert_eq!(rung(&reader_bell), 1);
}

#[test]
fn a_waiting_writer_is_woken_by_the_next_read() {
    let (reader_bell, reader) = bell();
    let (writer_bell, writer) = bell();
    let mut ring = pipe(2);
    assert_eq!(ring.poll_write(&writer, &[1, 2, 3]), Poll::Ready(2));
    assert_eq!(ring.poll_write(&writer, &[3]), Poll::Pending);
    assert_eq!(rung(&writer_bell), 0);
    let mut one: [u8; 1] = [0];
    assert_eq!(ring.poll_read(&reader, &mut one), Poll::Ready(1));
    assert_eq!(one, [1]);
    assert_eq!(rung(&writer_bell), 1);
    assert_eq!(rung(&reader_bell), 0);
    assert_eq!(ring.poll_write(&writer, &[3]), Poll::Ready(1));
    let mut buf: [u8; 4] = [0; 4];
    assert_eq!(ring.poll_read(&reader, &mut buf), Poll::Ready(1));
    assert_eq!(ring.poll_read(&reader, &mut buf), Poll::Ready(1));
    assert_eq!(buf[0], 3);
}

#[test]
fn a_read_that_moves_nothing_wakes_nobody() {
    let (writer_bell, writer) = bell();
    let (_, reader) = bell();
    let mut ring = pipe(1);
    assert_eq!(ring.poll_write(&writer, &[1]), Poll::Ready(1));
    assert_eq!(ring.poll_write(&writer, &[2]), Poll::Pending);
    let mut none: [u8; 0] = [];
    assert_eq!(ring.poll_read(&reader, &mut none), Poll::Ready(0));
    assert_eq!(rung(&writer_bell), 0);
}

#[test]
fn closing_the_writer_lets_the_reader_drain() {
    let (reader_bell, reader) = bell();
    let (_, writer) = bell();
    let mut ring = pipe(16);
    let mut buf: [u8; 4] = [0; 4];
    assert_eq!(ring.poll_read(&reader, &mut buf), Poll::Pending);
    let input = pattern(10, 5);
    assert_eq!(ring.poll_write(&writer, &input), Poll::Ready(10));
    assert_eq!(rung(&reader_bell), 1);
    assert_eq!(ring.poll_read(&reader, &mut buf), Poll::Ready(4));
    ring.close_writer();
    assert!(ring.is_closed());
    let mut output: Vec<u8> = buf.to_vec();
    loop {
        match ring.poll_read(&reader, &mut buf) {
            Poll::Ready(0) => break,
            Poll::Ready(n) => output.extend_from_slice(&buf[..n]),
            Poll::Pending => panic!("a closed pipe made its reader wait"),
        }
    }
    assert_eq!(output, input);
    for _ in 0..3 {
        assert_eq!(ring.poll_read(&reader, &mut buf), Poll::Ready(0));
    }
}

#[test]
fn closing_the_writer_wakes_a_waiting_reader() {
    let (reader_bell, reader) = bell();
    let mut ring = pipe(4);
    let mut buf: [u8; 4] = [0; 4];
    assert_eq!(ring.poll_read(&reader, &mut buf), Poll::Pending);
    ring.close_writer();
    assert_eq!(rung(&reader_bell), 1);
    assert_eq!(ring.poll_read(&reader, &mut buf), Poll::Ready(0));
}

#[test]
fn closing_the_reader_turns_the_writer_away() {
    let (writer_bell, writer) = bell();
    let mut ring = pipe(2);
    assert_eq!(ring.poll_write(&writer, &[1, 2]), Poll::Ready(2));
    assert_eq!(ring.poll_write(&writer, &[3]), Poll::Pending);
    ring.close_reader();
    assert_eq!(rung(&writer_bell), 1);
    for _ in 0..3 {
        assert_eq!(ring.poll_write(&writer, &[3]), Poll::Ready(0));
    }
    assert_eq!(ring.len(), 2);
}

#[test]
fn a_closed_pipe_takes_nothing_even_with_room() {
    let (_, writer) = bell();
    let mut ring = pipe(8);
    ring.close_reader();
    assert_eq!(ring.poll_write(&writer, &[1, 2, 3]), Poll::Ready(0));
    assert!(ring.is_empty());
    assert_eq!(ring.begin_write(&writer), Gate::Shut);
}

#[test]
fn gates() {
    let (_, waker) = bell();
    let mut ring = pipe(2);
    assert_eq!(ring.begin_read(&waker), Gate::Wait);
    assert_eq!(ring.begin_write(&waker), Gate::Open);
    assert_eq!(ring.reserve(), 2);
    assert!(ring.commit(&[1, 2]));
    assert_eq!(ring.begin_write(&waker), Gate::Wait);
    assert_eq!(ring.begin_read(&waker), Gate::Open);
    assert_eq!(ring.chunk(), &[1, 2]);
    assert!(ring.consume(2));
    ring.close_writer();
    assert_eq!(ring.begin_read(&waker), Gate::Shut);
}

#[test]
fn the_writer_claims_the_buffer_in_growing_steps() {
    let (_, waker) = bell();
    let cap: usize = 1024 * 1024;
    let mut ring = pipe(cap);
    let zeros: Vec<u8> = vec![0; CHUNK_MAX];
    assert_eq!(ring.begin_write(&waker), Gate::Open);
    // Nothing claimed yet: ZERO_STEP bytes.
    assert_eq!(ring.reserve(), 4096);
    assert_eq!(ring.reserve(), 4096 * 2 + 4096);
    assert!(ring.commit(&zeros[..12288]));
    // 12288 bytes claimed: twice that and ZERO_STEP more.
    assert_eq!(ring.reserve(), 12288 * 2 + ZERO_STEP);
    assert!(ring.commit(&zeros[..28672]));
    // 40960 bytes claimed: 86016.
    assert_eq!(ring.reserve(), 86016);
    assert!(ring.commit(&zeros[..86016]));
    // 126976 bytes claimed: CHUNK_MAX is less than twice that.
    assert_eq!(ring.reserve(), 131072);
    assert_eq!(ring.reserve(), CHUNK_MAX);
    assert!(ring.commit(&zeros[..10]));
    assert_eq!(ring.len(), 12288 + 28672 + 86016 + 10);
}

#[test]
fn a_chunk_ends_where_the_room_ends() {
    let (_, waker) = bell();
    let mut ring = pipe(10);
    assert_eq!(ring.begin_write(&waker), Gate::Open);
    // Nothing is claimed yet, so nothing may be put in.
    assert_eq!(ring.committable(), 0);
    assert_eq!(ring.reserve(), 10);
    assert_eq!(ring.committable(), 10);
    assert!(ring.commit(&[1, 2, 3, 4, 5, 6]));
    assert_eq!(ring.committable(), 4);
    assert_eq!(ring.reserve(), 4);
    assert!(!ring.commit(&[]));
    assert_eq!(ring.len(), 6);
}

#[test]
fn a_chunk_ends_where_the_buffer_ends() {
    let (_, waker) = bell();
    let mut ring = pipe(10);
    assert_eq!(ring.poll_write(&waker, &[1, 2, 3, 4, 5, 6, 7, 8]), Poll::Ready(8));
    let mut buf: [u8; 6] = [0; 6];
    assert_eq!(ring.poll_read(&waker, &mut buf), Poll::Ready(6));
    // Free: two bytes at the end of the buffer and six at its start. The
    // writer has to look again to know of them.
    assert_eq!(ring.begin_write(&waker), Gate::Open);
    assert_eq!(ring.reserve(), 2);
    assert!(ring.commit(&[9, 10]));
    assert_eq!(ring.reserve(), 0);
    assert!(!ring.commit(&[]));
    assert_eq!(ring.begin_write(&waker), Gate::Open);
    assert_eq!(ring.reserve(), 6);
    assert!(ring.commit(&[11, 12, 13]));
    // In flight: two bytes at positions 6 and 7, two at 8 and 9, three at
    // 0 to 2. The reader has seen the first two.
    assert_eq!(ring.begin_read(&waker), Gate::Open);
    assert_eq!(ring.read_chunk(), 2);
    assert_eq!(ring.chunk(), &[7, 8]);
    assert!(ring.consume(2));
    assert_eq!(ring.read_chunk(), 0);
    assert!(!ring.consume(0));
    assert_eq!(ring.begin_read(&waker), Gate::Open);
    assert_eq!(ring.read_chunk(), 2);
    assert_eq!(ring.chunk(), &[9, 10]);
    assert!(ring.consume(1));
    assert_eq!(ring.chunk(), &[10]);
    assert!(ring.consume(1));
    assert_eq!(ring.chunk(), &[11, 12, 13]);
    assert!(ring.consume(3));
    assert!(ring.is_empty());
}

#[test]
fn a_chunk_is_no_longer_than_chunk_max() {
    let (_, waker) = bell();
    let cap: usize = 4 * CHUNK_MAX;
    let mut ring = pipe(cap);
    let input = pattern(3 * CHUNK_MAX, 11);
    assert_eq!(ring.poll_write(&waker, &input), Poll::Ready(3 * CHUNK_MAX));
    assert_eq!(ring.begin_read(&waker), Gate::Open);
    assert_eq!(ring.read_chunk(), 131072);
    assert_eq!(ring.chunk(), &input[..CHUNK_MAX]);
    assert!(ring.consume(CHUNK_MAX));
    assert_eq!(ring.chunk(), &input[CHUNK_MAX..2 * CHUNK_MAX]);
    assert_eq!(ring.begin_write(&waker), Gate::Open);
    assert_eq!(ring.reserve(), CHUNK_MAX);
}
