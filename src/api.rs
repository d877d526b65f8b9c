use vstd::prelude::*;

verus! {

/// One page of a listing from the asset service.
#[derive(Debug)]
pub struct PaginationListResp<T> {
    pub items: Vec<T>,
    pub total: i64,
    pub total_pages: i64,
}

/// A category of 3D assets as the asset service describes it.
#[derive(Debug)]
pub struct Robot3DAssetCategoryRespItem {
    pub id: String,
    pub name: String,
    pub description: String,
    pub utime: i64,
    pub ctime: i64,
    pub asset_count: i64,
}

/// The envelope of every answer of the asset service.
#[derive(Debug)]
pub struct ApiResponse<T> {
    pub data: Option<T>,
    pub code: i32,
    pub message: String,
}

/// Why an answer of the asset service carries no usable data.
#[derive(Debug)]
pub struct ApiFailure {
    pub status: i32,
    /// The service's message; `None` when it reported success but sent no data.
    pub message: Option<String>,
}

/// Whether the service's own code reports success.
pub open spec fn is_success_code(code: i32) -> bool {
    code == 0 || code == 200
}

impl<T> ApiResponse<T> {
    /// The data of a successful answer; otherwise the status and the service's message.
    pub fn into_data(self) -> (r: Result<T, ApiFailure>)
        ensures
            is_success_code(self.code) && self.data is Some ==> r == Ok::<T, ApiFailure>(
                self.data->0,
            ),
            is_success_code(self.code) && self.data is None ==> r is Err && r->Err_0.status
                == self.code && r->Err_0.message is None,
            !is_success_code(self.code) ==> r is Err && r->Err_0.status == self.code
                && r->Err_0.message == Some(self.message),
    {
        if self.code == 0 || self.code == 200 {
            match self.data {
                Some(d) => Ok(d),
                None => Err(ApiFailure { status: self.code, message: None }),
            }
        } else {
            Err(ApiFailure { status: self.code, message: Some(self.message) })
        }
    }
}

} // verus!
