# cloudwatch_logger

A logger that delivers messages to CloudWatch Logs, or prints them to the console.

`src/` holds the decisions, verified with Verus: how messages are sorted into daily streams, which
calls a delivery makes in which order, when an event is retried, and what is kept in the caches.
`src/laws.rs` states what holds of every delivery. `app/` holds the macros `log!` and `log_custom!`
and makes the calls.

| Variable                    | Meaning                                              |
|-----------------------------|------------------------------------------------------|
| `CLOUDWATCH_AWS_ACCESS_KEY` | AWS access key                                       |
| `CLOUDWATCH_AWS_SECRET_KEY` | AWS secret key                                       |
| `CLOUDWATCH_AWS_REGION`     | AWS region, `us-east-1` if it is not set             |
| `AWS_LOG_GROUP`             | name of the log group                                |
| `LOG_TO_CLOUDWATCH`         | `true` sends messages to CloudWatch Logs             |

```rust
log!(Level::Info, "This is an info message");
log_custom!(Level::Info, "Custom Stream Name", "This is the message and variable {}", variable);
```

Trusted, and not proved: the clock and the writing of dates (`chrono`, in `src/clock.rs`) and the
names of the levels (`log`, in `src/level.rs`).
