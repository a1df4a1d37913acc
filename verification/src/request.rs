//! The banking requests that clients, the load balancer and the back ends
//! exchange.

use vstd::prelude::*;
use vstd::string::*;

use crate::id::{is_random_v4, std_random_bytes, uuid_parse, uuid_text, Uuid};

verus! {

/// What a request is about.
#[derive(PartialEq, Eq, Structural, Clone, Copy, Debug)]
pub enum RequestType {
    Shutdown,
    Authenticate,
    Transactions,
    Account,
    Misc,
    Result,
}

/// The kinds of authentication requests.
#[derive(PartialEq, Eq, Structural, Clone, Copy, Debug)]
pub enum AuthenticateType {
    Login,
    NewUser,
    ChangePassword,
}

/// The kinds of transaction requests.
#[derive(PartialEq, Eq, Structural, Clone, Copy, Debug)]
pub enum TransactionType {
    ListTransactions,
    TransactionInfo,
    NewTransaction,
}

/// The kinds of bank account requests.
#[derive(PartialEq, Eq, Structural, Clone, Copy, Debug)]
pub enum AccountType {
    ListAccounts,
    AccountInfo,
    NewAccount,
}

/// The kinds of other requests.
#[derive(PartialEq, Eq, Structural, Clone, Copy, Debug)]
pub enum MiscType {
    Unknown,
    NewClient,
}

/// How a request was answered.
#[derive(PartialEq, Eq, Structural, Clone, Copy, Debug)]
pub enum ResultType {
    Success,
    InvalidArgs,
    UnexpectedError,
    NotAuthenticated,
}

/// The refinement of a request's type.
#[derive(PartialEq, Eq, Structural, Clone, Copy, Debug)]
pub enum DetailedType {
    Auth(AuthenticateType),
    Transaction(TransactionType),
    Account(AccountType),
    Misc(MiscType),
    Result(ResultType),
}

/// A request, or the answer to one.
///
/// `client_id` names the connection it travels on and `user_id` the
/// authenticated user it is made for.
#[derive(Debug)]
pub struct Request {
    pub field_type: RequestType,
    pub user_id: String,
    pub client_id: String,
    pub data: Vec<String>,
    pub from_client: bool,
    pub detailed_type: Option<DetailedType>,
    pub token_id: String,
}

impl Request {
    /// A request with the given fields; the client id is the text of
    /// `client` and the user id is empty.
    pub fn new_from_fields(
        data: Vec<String>,
        client: Uuid,
        from_client: bool,
        request_type: RequestType,
        token_id: &String,
        detailed_type: Option<DetailedType>,
    ) -> (res: Result<Request, std::io::Error>)
        ensures
            res matches Ok(r) && {
                &&& r.field_type == request_type
                &&& r.user_id@ == Seq::<char>::empty()
                &&& r.client_id@ == uuid_text(client.bytes@)
                &&& uuid_parse(r.client_id@) == Some(client.bytes@)
                &&& r.data@ == data@
                &&& r.from_client == from_client
                &&& r.detailed_type == detailed_type
                &&& r.token_id@ == token_id@
            },
    {
        let message = Request {
            field_type: request_type,
            user_id: String::new(),
            client_id: client.to_string(),
            data,
            from_client,
            detailed_type,
            token_id: token_id.clone(),
        };
        Ok(message)
    }

    /// The answer of kind `result_type` to the client `client`, carrying
    /// `data`.
    pub fn success_result(data: Vec<String>, client: String, result_type: ResultType) -> (res:
        Request)
        ensures
            res.field_type == RequestType::Result,
            res.user_id@ == Seq::<char>::empty(),
            res.client_id@ == client@,
            res.data@ == data@,
            !res.from_client,
            res.detailed_type == Some(DetailedType::Result(result_type)),
            res.token_id@ == Seq::<char>::empty(),
    {
        Request {
            field_type: RequestType::Result,
            user_id: String::new(),
            client_id: client,
            data,
            from_client: false,
            detailed_type: Some(DetailedType::Result(result_type)),
            token_id: String::new(),
        }
    }

    /// The request that tells a network thread to shut down.
    pub fn shutdown() -> (res: Request)
        ensures
            res.field_type == RequestType::Shutdown,
            res.user_id@ == Seq::<char>::empty(),
            res.client_id@ == Seq::<char>::empty(),
            res.data@ == Seq::<String>::empty(),
            !res.from_client,
            res.detailed_type is None,
            res.token_id@ == Seq::<char>::empty(),
    {
        Request {
            field_type: RequestType::Shutdown,
            user_id: String::new(),
            client_id: String::new(),
            data: Vec::new(),
            from_client: false,
            detailed_type: None,
            token_id: String::new(),
        }
    }

    /// A fresh random identifier for a client connection: sixteen bytes from
    /// a generator seeded by the operating system, made a version 4 UUID.
    pub fn new_secure_uuid_v4() -> (res: Uuid)
        ensures
            is_random_v4(res.bytes@),
    {
        Uuid::from_random_bytes(std_random_bytes())
    }

    /// The one-line description of the request that the peers log.
    pub fn describe(&self) -> (res: String)
        ensures
            res@ == "Request from "@ + self.client_id@,
    {
        let mut out = String::new();
        out.append("Request from ");
        out.append(self.client_id.as_str());
        out
    }
}

impl Clone for Request {
    fn clone(&self) -> (res: Self)
        ensures
            res.field_type == self.field_type,
            res.user_id@ == self.user_id@,
            res.client_id@ == self.client_id@,
            res.data@.len() == self.data@.len(),
            forall|i: int| 0 <= i < self.data@.len() ==> (#[trigger] res.data@[i])@ == self.data@[i]@,
            res.from_client == self.from_client,
            res.detailed_type == self.detailed_type,
            res.token_id@ == self.token_id@,
    {
        let mut data: Vec<String> = Vec::new();
        let mut i: usize = 0;
        while i < self.data.len()
            invariant
                i <= self.data@.len(),
                data@.len() == i,
                forall|j: int| 0 <= j < i ==> (#[trigger] data@[j])@ == self.data@[j]@,
            decreases self.data@.len() - i,
        {
            data.push(self.data[i].clone());
            i = i + 1;
        }
        Request {
            field_type: self.field_type,
            user_id: self.user_id.clone(),
            client_id: self.client_id.clone(),
            data,
            from_client: self.from_client,
            detailed_type: self.detailed_type,
            token_id: self.token_id.clone(),
        }
    }
}

} // verus!
