use vstd::prelude::*;
use crate::text::{int_text, int_to_text};

verus! {

/// A book on a library's shelf.
#[derive(Debug, Clone)]
pub struct Book {
    pub title: String,
    pub author: String,
    pub pages: u32,
    pub published: u16,
}

/// A named collection of books, kept in the order they were added.
pub struct Library {
    pub name: String,
    pub books: Vec<Book>,
}

/// The number of pages of all the books together.
pub open spec fn pages_sum(books: Seq<Book>) -> int
    decreases books.len(),
{
    if books.len() == 0 {
        0
    } else {
        pages_sum(books.drop_last()) + books.last().pages
    }
}

/// The books whose author is `author`, in their order.
pub open spec fn books_by(books: Seq<Book>, author: Seq<char>) -> Seq<Book>
    decreases books.len(),
{
    if books.len() == 0 {
        Seq::empty()
    } else if books.last().author@ == author {
        books_by(books.drop_last(), author).push(books.last())
    } else {
        books_by(books.drop_last(), author)
    }
}

proof fn lemma_pages_sum_prefix(books: Seq<Book>, k: int)
    requires
        0 <= k <= books.len(),
    ensures
        0 <= pages_sum(books.subrange(0, k)) <= pages_sum(books),
    decreases books.len(),
{
    if k < books.len() {
        lemma_pages_sum_prefix(books.drop_last(), k);
        assert(books.drop_last().subrange(0, k) =~= books.subrange(0, k));
    } else {
        assert(books.subrange(0, k) =~= books);
        if books.len() > 0 {
            lemma_pages_sum_prefix(books.drop_last(), k - 1);
        }
    }
}

impl Library {
    /// An empty library with the given name.
    pub fn new(name: String) -> (r: Library)
        ensures
            r.name == name,
            r.books@ == Seq::<Book>::empty(),
    {
        Library { name, books: Vec::new() }
    }

    /// Puts `book` after the books already there.
    pub fn add_book(&mut self, book: Book)
        ensures
            final(self).name == old(self).name,
            final(self).books@ == old(self).books@.push(book),
    {
        self.books.push(book);
    }

    /// The number of pages of all the books; the caller keeps it within `u32`.
    pub fn total_pages(&self) -> (r: u32)
        requires
            pages_sum(self.books@) <= u32::MAX,
        ensures
            r == pages_sum(self.books@),
    {
        let mut total: u32 = 0;
        let mut i: usize = 0;
        while i < self.books.len()
            invariant
                i <= self.books@.len(),
                pages_sum(self.books@) <= u32::MAX,
                total == pages_sum(self.books@.subrange(0, i as int)),
            decreases self.books@.len() - i,
        {
            proof {
                lemma_pages_sum_prefix(self.books@, i + 1);
                assert(self.books@.subrange(0, i + 1).drop_last() =~= self.books@.subrange(
                    0,
                    i as int,
                ));
            }
            total = total + self.books[i].pages;
            i = i + 1;
        }
        assert(self.books@.subrange(0, i as int) =~= self.books@);
        total
    }

    /// The books by `author`, in the order they were added.
    pub fn find_by_author(&self, author: &str) -> (r: Vec<&Book>)
        ensures
            r@.map_values(|b: &Book| *b) == books_by(self.books@, author@),
    {
        let key = String::from_str(author);
        let mut found: Vec<&Book> = Vec::new();
        let mut i: usize = 0;
        while i < self.books.len()
            invariant
                i <= self.books@.len(),
                key@ == author@,
                found@.map_values(|b: &Book| *b) == books_by(self.books@.subrange(0, i as int), author@),
            decreases self.books@.len() - i,
        {
            let ghost prefix = self.books@.subrange(0, i + 1);
            assert(prefix.drop_last() =~= self.books@.subrange(0, i as int));
            let book = &self.books[i];
            let ghost before = found@;
            if book.author == key {
                found.push(book);
                assert(found@.map_values(|b: &Book| *b) =~= before.map_values(|b: &Book| *b).push(
                    *book,
                ));
            }
            i = i + 1;
        }
        assert(self.books@.subrange(0, i as int) =~= self.books@);
        found
    }
}

/// An instruction for something that moves, speaks and changes colour.
#[derive(Debug, Clone, PartialEq, Eq)]
pub enum Command {
    Quit,
    Move { x: i32, y: i32 },
    Say(String),
    ChangeColor(u8, u8, u8),
}

/// What carrying out a command reports.
pub open spec fn command_text(cmd: Command) -> Seq<char> {
    match cmd {
        Command::Quit => "Quitting..."@,
        Command::Move { x, y } => "Moving to ("@ + int_text(x as int) + ", "@ + int_text(y as int)
            + ")"@,
        Command::Say(msg) => "Saying: "@ + msg@,
        Command::ChangeColor(r, g, b) => "Changing color to RGB("@ + int_text(r as int) + ", "@
            + int_text(g as int) + ", "@ + int_text(b as int) + ")"@,
    }
}

impl Command {
    /// The report of carrying out this command.
    pub fn describe(&self) -> (r: String)
        ensures
            r@ == command_text(*self),
    {
        match self {
            Command::Quit => String::from_str("Quitting..."),
            Command::Move { x, y } => {
                let mut r = String::from_str("Moving to (");
                r.append(int_to_text(*x as i64).as_str());
                r.append(", ");
                r.append(int_to_text(*y as i64).as_str());
                r.append(")");
                r
            },
            Command::Say(msg) => {
                let mut r = String::from_str("Saying: ");
                r.append(msg.as_str());
                r
            },
            Command::ChangeColor(red, green, blue) => {
                let mut r = String::from_str("Changing color to RGB(");
                r.append(int_to_text(*red as i64).as_str());
                r.append(", ");
                r.append(int_to_text(*green as i64).as_str());
                r.append(", ");
                r.append(int_to_text(*blue as i64).as_str());
                r.append(")");
                r
            },
        }
    }
}

} // verus!
