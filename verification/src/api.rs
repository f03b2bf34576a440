//! The JSON envelope of the directory-browsing API: a numeric status,
//! an optional error message, and optional data. Status zero means
//! success.

use vstd::prelude::*;

use crate::my_err::MyErr;

verus! {

/// The envelope every browsing reply travels in.
#[derive(Clone, Debug)]
pub struct Response<T> {
    pub status: u32,
    pub err_msg: Option<String>,
    pub data: Option<T>,
}

impl<T> Response<T> {
    /// A successful reply carrying data.
    pub fn success(data: T) -> (r: Response<T>)
        ensures
            r.status == 0,
            r.err_msg is None,
            r.data matches Some(d) && d == data,
    {
        Response { status: 0, err_msg: None, data: Some(data) }
    }

    /// A failed reply carrying a message.
    pub fn failure(msg: String) -> (r: Response<T>)
        ensures
            r.status == 1,
            r.err_msg matches Some(m) && m@ == msg@,
            r.data is None,
    {
        Response { status: 1, err_msg: Some(msg), data: None }
    }

    /// Success becomes the carried data; any other status becomes an
    /// error carrying the envelope's message, or an empty one where
    /// none was sent.
    pub fn to_result(self) -> (r: Result<Option<T>, MyErr>)
        ensures
            self.status == 0 ==> (r matches Ok(d) && d == self.data),
            self.status != 0 ==> (r matches Err(e) && e.msg_spec() == match self.err_msg {
                Some(m) => m@,
                None => Seq::<char>::empty(),
            }),
    {
        if self.status == 0 {
            Ok(self.data)
        } else {
            match self.err_msg {
                Some(m) => Err(MyErr::new(m)),
                None => Err(MyErr::new(String::new())),
            }
        }
    }
}

} // verus!
