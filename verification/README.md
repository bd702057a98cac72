# packfile_sync

Syncs packed history in both directions. An upload packs the history range that a manifest record
names and ships the packfile to the server. A download fetches the packfile of a remote manifest and
expands it back into the local history.

`src/` is the verified library. It decides what is requested next and what a sync ends with; each
step names one request and takes its reply. `src/laws/` states what holds of whole syncs: ids come
in input order, a range that is local already is never fetched, only stored ids are given, permanent
faults are skipped and transient ones are not, a download undoes an upload, and a second download of
a range changes nothing.

`app/` is the async driver that performs the requests against a record store, a packfile server and
a pack codec.
