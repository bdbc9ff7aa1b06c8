use vstd::prelude::*;

verus! {

/// Capacity of the read buffer of one connection.
pub const BUFFSIZE: usize = 50;

/// What the buffer holds after a read that received `received`: those bytes,
/// then zeros up to the buffer's capacity.
pub open spec fn filled(received: Seq<u8>) -> Seq<u8> {
    received + Seq::new((BUFFSIZE - received.len()) as nat, |k: int| 0u8)
}

/// One accepted connection: its descriptor and a fixed-size read buffer.
pub struct ConnectionContext {
    fd: i32,
    pub buffer: [u8; BUFFSIZE],
}

impl ConnectionContext {
    pub closed spec fn fd_spec(&self) -> i32 {
        self.fd
    }

    /// The bytes currently held in the read buffer.
    pub closed spec fn bytes(&self) -> Seq<u8> {
        self.buffer@
    }

    /// A record for descriptor `fd` with a zeroed buffer.
    pub closed spec fn fresh(fd: i32) -> Self {
        ConnectionContext {
            fd,
            buffer: vstd::array::spec_array_fill_for_copy_type::<u8, BUFFSIZE>(0u8),
        }
    }

    /// A fresh record holds its descriptor and a zeroed buffer.
    pub broadcast proof fn lemma_fresh(fd: i32)
        ensures
            #[trigger] Self::fresh(fd).fd_spec() == fd,
            Self::fresh(fd).bytes() == Seq::new(BUFFSIZE as nat, |k: int| 0u8),
    {
        assert(Self::fresh(fd).bytes() =~= Seq::new(BUFFSIZE as nat, |k: int| 0u8));
    }

    pub fn new(fd: i32) -> (r: Self)
        ensures
            r == Self::fresh(fd),
            r.fd_spec() == fd,
            r.bytes() == Seq::new(BUFFSIZE as nat, |k: int| 0u8),
    {
        let r = Self { fd, buffer: [0u8; BUFFSIZE] };
        assert(r.buffer@ =~= Seq::new(BUFFSIZE as nat, |k: int| 0u8));
        r
    }

    /// The descriptor of the connection's socket.
    pub fn fd(&self) -> (r: i32)
        ensures
            r == self.fd_spec(),
    {
        self.fd
    }

    /// Takes in the bytes of one read: the buffer is zeroed, then the
    /// received bytes are placed at its start. Returns how many there were.
    pub fn read(&mut self, received: &[u8]) -> (n: usize)
        requires
            received@.len() <= BUFFSIZE,
        ensures
            n == received@.len(),
            final(self).fd_spec() == old(self).fd_spec(),
            final(self).bytes() == filled(received@),
    {
        self.buffer = [0u8; BUFFSIZE];
        let n = received.len();
        let mut i: usize = 0;
        while i < n
            invariant
                n == received@.len(),
                n <= BUFFSIZE,
                i <= n,
                self.fd == old(self).fd,
                self.buffer@.len() == BUFFSIZE,
                forall|k: int| 0 <= k < i ==> self.buffer@[k] == received@[k],
                forall|k: int| i <= k < BUFFSIZE ==> self.buffer@[k] == 0u8,
            decreases n - i,
        {
            self.buffer[i] = received[i];
            i = i + 1;
        }
        assert(self.buffer@ =~= filled(received@));
        n
    }

    /// The first `n` bytes of the buffer: what the last read received when
    /// it reported `n`.
    pub fn payload(&self, n: usize) -> (r: Vec<u8>)
        requires
            n <= BUFFSIZE,
        ensures
            r@ == self.bytes().subrange(0, n as int),
    {
        let mut r: Vec<u8> = Vec::with_capacity(n);
        let mut i: usize = 0;
        while i < n
            invariant
                n <= BUFFSIZE,
                i <= n,
                self.buffer@.len() == BUFFSIZE,
                r@ =~= self.buffer@.subrange(0, i as int),
            decreases n - i,
        {
            r.push(self.buffer[i]);
            i = i + 1;
        }
        r
    }
}

} // verus!
